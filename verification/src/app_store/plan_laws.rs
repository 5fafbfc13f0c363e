//! What a plan tells of what is still to be created, and what is sent of files.

use vstd::prelude::*;
use vstd::string::*;
use crate::api::{link_view, ApiRequest, Verb};
use crate::app_store::laws::{
    lemma_body, lemma_endpoint, lemma_post, sent, sent_link, source_known, told_text,
};
use crate::app_store::reconcile::{
    planned_build, planned_children, planned_locales, planned_media, planned_previews,
    ended, planned_review, planned_screenshots, platform_subject, ran_all, shared_lacks,
    AppStoreSync, Outcome,
};
use crate::app_store::requests::{
    related, uploaded_members, AppStoreApi, AssetKind, MembersView,
};
use crate::app_store::resolve::{
    media_path_checks, MediaPath, ResolveContext, ResolvedAppInfoLocalization, ResolvedReview,
    ResolvedVersionLocalization,
};
use crate::app_store::resources::commerce::{
    commerce_children, commerce_localization_step, commerce_localization_steps, followup_steps,
    group_children, group_localization_step, group_localization_steps, iap_message,
    subscription_message,
};
use crate::app_store::resources::events::event_children;
use crate::app_store::resources::pages::{page_children, told_each};
use crate::app_store::resources::requests::AssetUploadTarget;
use crate::app_store::resources::{
    CommerceKind, RemoteResource, ResolvedAppEvent, ResolvedAppEventLocalization,
    ResolvedCommerceLocalization, ResolvedCustomProductPage, ResolvedCustomProductPageLocalization,
    ResolvedSubscriptionGroupLocalization,
};
use crate::config::{
    AppEventLocalizationSpec, AppEventMediaSpec, AppEventSpec, AppInfoLocalizationSpec,
    AppMediaLocalizationSpec, AppPlatform, AppReviewSpec, AppSharedSpec,
    AppVersionLocalizationSource, AppVersionLocalizationSpec, AppVersionSpec,
    CommerceLocalizationSpec, CustomProductPageLocalizationSpec, CustomProductPageSpec,
    InAppPurchaseSpec, KeywordsSpec, MediaPathList, MediaPreviewSet, MediaScreenshotSet,
    MediaScreenshotSource, SubscriptionGroupLocalizationSpec, SubscriptionSpec,
};
use crate::json::{member, JsonView};
use crate::ordered::OrderedMap;
use crate::sync::{request_views, ChangeKind, ChangeView, Mode, StepView};
use crate::text::{
    decimal, due_if, earlier, first_message, lemma_first_message_none, owned, starts,
};

verus! {

/// A change of a kind to a subject.
pub open spec fn changes(change: ChangeView, kind: ChangeKind, subject: Seq<char>) -> bool {
    change.kind == kind && change.subject == subject
}

proof fn lemma_locales(
    base: Seq<char>,
    entries: Seq<(Seq<char>, AppVersionLocalizationSource)>,
    n: nat,
)
    requires
        n <= entries.len(),
    ensures
        planned_locales(base, entries, n).len() == n,
        forall|i: int|
            0 <= i < n ==> changes(
                #[trigger] planned_locales(base, entries, n)[i],
                ChangeKind::Create,
                base + ".localizations."@ + entries[i].0,
            ),
    decreases n,
{
    if n > 0 {
        lemma_locales(base, entries, (n - 1) as nat);
    }
}

/// A plan for a new version creates each of its localizations, in their order.
pub proof fn law_planned_localizations(
    base: Seq<char>,
    entries: Seq<(Seq<char>, AppVersionLocalizationSource)>,
)
    ensures
        planned_locales(base, entries, entries.len()).len() == entries.len(),
        forall|i: int|
            0 <= i < entries.len() ==> changes(
                #[trigger] planned_locales(base, entries, entries.len())[i],
                ChangeKind::Create,
                base + ".localizations."@ + entries[i].0,
            ),
{
    lemma_locales(base, entries, entries.len());
}

proof fn lemma_planned_screenshots(
    base: Seq<char>,
    entries: Seq<(MediaScreenshotSet, MediaScreenshotSource)>,
    n: nat,
)
    requires
        n <= entries.len(),
    ensures
        planned_screenshots(base, entries, n).len() == n,
        forall|i: int|
            0 <= i < n ==> changes(
                #[trigger] planned_screenshots(base, entries, n)[i],
                ChangeKind::Replace,
                base + ".screenshots."@ + entries[i].0.asc_display_type_of(),
            ),
    decreases n,
{
    if n > 0 {
        lemma_planned_screenshots(base, entries, (n - 1) as nat);
    }
}

proof fn lemma_planned_previews(
    base: Seq<char>,
    entries: Seq<(MediaPreviewSet, MediaPathList)>,
    n: nat,
)
    requires
        n <= entries.len(),
    ensures
        planned_previews(base, entries, n).len() == n,
        forall|i: int|
            0 <= i < n ==> changes(
                #[trigger] planned_previews(base, entries, n)[i],
                ChangeKind::Replace,
                base + ".app_previews."@ + entries[i].0.asc_preview_type_of(),
            ),
    decreases n,
{
    if n > 0 {
        lemma_planned_previews(base, entries, (n - 1) as nat);
    }
}

/// How many media sets the first `n` locales of a version have.
pub open spec fn set_count(entries: Seq<(Seq<char>, AppMediaLocalizationSpec)>, n: nat) -> nat
    decreases n,
{
    if n == 0 || n > entries.len() {
        0
    } else {
        set_count(entries, (n - 1) as nat) + entries[n - 1].1.screenshots.entries().len()
            + entries[n - 1].1.app_previews.entries().len()
    }
}

proof fn lemma_planned_media(
    base: Seq<char>,
    entries: Seq<(Seq<char>, AppMediaLocalizationSpec)>,
    n: nat,
)
    requires
        n <= entries.len(),
    ensures
        planned_media(base, entries, n).len() == set_count(entries, n),
        forall|i: int|
            0 <= i < planned_media(base, entries, n).len() ==> (
            #[trigger] planned_media(base, entries, n)[i]).kind == ChangeKind::Replace,
        forall|i: int, j: int|
            #![trigger entries[i].1.screenshots.entries()[j]]
            0 <= i < n && 0 <= j < entries[i].1.screenshots.entries().len()
                ==> exists|k: int|
                0 <= k < planned_media(base, entries, n).len() && changes(
                    #[trigger] planned_media(base, entries, n)[k],
                    ChangeKind::Replace,
                    base + ".media."@ + entries[i].0 + ".screenshots."@
                        + entries[i].1.screenshots.entries()[j].0.asc_display_type_of(),
                ),
        forall|i: int, j: int|
            #![trigger entries[i].1.app_previews.entries()[j]]
            0 <= i < n && 0 <= j < entries[i].1.app_previews.entries().len()
                ==> exists|k: int|
                0 <= k < planned_media(base, entries, n).len() && changes(
                    #[trigger] planned_media(base, entries, n)[k],
                    ChangeKind::Replace,
                    base + ".media."@ + entries[i].0 + ".app_previews."@
                        + entries[i].1.app_previews.entries()[j].0.asc_preview_type_of(),
                ),
    decreases n,
{
    if n > 0 {
        lemma_planned_media(base, entries, (n - 1) as nat);
        let place = base + ".media."@ + entries[n - 1].0;
        let shots = entries[n - 1].1.screenshots.entries();
        let previews = entries[n - 1].1.app_previews.entries();
        lemma_planned_screenshots(place, shots, shots.len());
        lemma_planned_previews(place, previews, previews.len());
        let a = planned_media(base, entries, (n - 1) as nat);
        let b = planned_screenshots(place, shots, shots.len());
        let c = planned_previews(place, previews, previews.len());
        let all = planned_media(base, entries, n);
        assert(all == a + b + c);
        assert forall|i: int| 0 <= i < all.len() implies (#[trigger] all[i]).kind
            == ChangeKind::Replace by {
            if i < a.len() {
                assert(all[i] == a[i]);
            } else if i < a.len() + b.len() {
                assert(all[i] == b[i - a.len()]);
            } else {
                assert(all[i] == c[i - a.len() - b.len()]);
            }
        }
        assert forall|i: int, j: int|
            #![trigger entries[i].1.screenshots.entries()[j]]
            0 <= i < n && 0 <= j < entries[i].1.screenshots.entries().len() implies exists|k: int|
            0 <= k < all.len() && changes(
                #[trigger] all[k],
                ChangeKind::Replace,
                base + ".media."@ + entries[i].0 + ".screenshots."@
                    + entries[i].1.screenshots.entries()[j].0.asc_display_type_of(),
            ) by {
            if i < n - 1 {
                let k = choose|k: int|
                    0 <= k < a.len() && changes(
                        #[trigger] a[k],
                        ChangeKind::Replace,
                        base + ".media."@ + entries[i].0 + ".screenshots."@
                            + entries[i].1.screenshots.entries()[j].0.asc_display_type_of(),
                    );
                assert(all[k] == a[k]);
            } else {
                assert(all[a.len() + j] == b[j]);
            }
        }
        assert forall|i: int, j: int|
            #![trigger entries[i].1.app_previews.entries()[j]]
            0 <= i < n && 0 <= j < entries[i].1.app_previews.entries().len() implies exists|k: int|
            0 <= k < all.len() && changes(
                #[trigger] all[k],
                ChangeKind::Replace,
                base + ".media."@ + entries[i].0 + ".app_previews."@
                    + entries[i].1.app_previews.entries()[j].0.asc_preview_type_of(),
            ) by {
            if i < n - 1 {
                let k = choose|k: int|
                    0 <= k < a.len() && changes(
                        #[trigger] a[k],
                        ChangeKind::Replace,
                        base + ".media."@ + entries[i].0 + ".app_previews."@
                            + entries[i].1.app_previews.entries()[j].0.asc_preview_type_of(),
                    );
                assert(all[k] == a[k]);
            } else {
                assert(all[a.len() + b.len() + j] == c[j]);
            }
        }
    }
}

/// A plan for a new version tells all that the version will need and nothing else: its build where it
/// names one, each localization, its review details where it has any, and each media set.
pub proof fn law_plans_tell_all_of_a_new_version(
    app_key: Seq<char>,
    platform: AppPlatform,
    version: AppVersionSpec,
)
    ensures
        ({
            let plan = planned_children(app_key, platform, version);
            let base = platform_subject(app_key, platform);
            let locales = version.localizations.entries();
            let media = version.media.entries();
            &&& plan.len() == (if version.build_number is Some {
                1int
            } else {
                0
            }) + locales.len() + (if version.review is Some {
                1int
            } else {
                0
            }) + set_count(media, media.len())
            &&& version.build_number is Some ==> changes(
                plan[0],
                ChangeKind::Update,
                base + ".version.build"@,
            )
            &&& version.review is Some ==> exists|k: int|
                0 <= k < plan.len() && changes(
                    #[trigger] plan[k],
                    ChangeKind::Create,
                    base + ".review"@,
                )
            &&& forall|i: int|
                #![trigger locales[i]]
                0 <= i < locales.len() ==> exists|k: int|
                    0 <= k < plan.len() && changes(
                        #[trigger] plan[k],
                        ChangeKind::Create,
                        base + ".localizations."@ + locales[i].0,
                    )
            &&& forall|i: int, j: int|
                #![trigger media[i].1.screenshots.entries()[j]]
                0 <= i < media.len() && 0 <= j < media[i].1.screenshots.entries().len()
                    ==> exists|k: int|
                    0 <= k < plan.len() && changes(
                        #[trigger] plan[k],
                        ChangeKind::Replace,
                        base + ".media."@ + media[i].0 + ".screenshots."@
                            + media[i].1.screenshots.entries()[j].0.asc_display_type_of(),
                    )
            &&& forall|i: int, j: int|
                #![trigger media[i].1.app_previews.entries()[j]]
                0 <= i < media.len() && 0 <= j < media[i].1.app_previews.entries().len()
                    ==> exists|k: int|
                    0 <= k < plan.len() && changes(
                        #[trigger] plan[k],
                        ChangeKind::Replace,
                        base + ".media."@ + media[i].0 + ".app_previews."@
                            + media[i].1.app_previews.entries()[j].0.asc_preview_type_of(),
                    )
        }),
{
    let plan = planned_children(app_key, platform, version);
    let base = platform_subject(app_key, platform);
    let locales = version.localizations.entries();
    let media = version.media.entries();
    let a = planned_build(base, version);
    let b = planned_locales(base, locales, locales.len());
    let c = planned_review(base, version);
    let d = planned_media(base, media, media.len());
    assert(plan == a + b + c + d);
    lemma_locales(base, locales, locales.len());
    lemma_planned_media(base, media, media.len());
    if version.build_number is Some {
        assert(plan[0] == a[0]);
    }
    if version.review is Some {
        assert(plan[(a.len() + b.len()) as int] == c[0]);
    }
    assert forall|i: int|
        #![trigger locales[i]]
        0 <= i < locales.len() implies exists|k: int|
        0 <= k < plan.len() && changes(
            #[trigger] plan[k],
            ChangeKind::Create,
            base + ".localizations."@ + locales[i].0,
        ) by {
        assert(plan[a.len() + i] == b[i]);
    }
    let before = a.len() + b.len() + c.len();
    assert forall|i: int, j: int|
        #![trigger media[i].1.screenshots.entries()[j]]
        0 <= i < media.len() && 0 <= j < media[i].1.screenshots.entries().len() implies exists|
        k: int,
    |
        0 <= k < plan.len() && changes(
            #[trigger] plan[k],
            ChangeKind::Replace,
            base + ".media."@ + media[i].0 + ".screenshots."@
                + media[i].1.screenshots.entries()[j].0.asc_display_type_of(),
        ) by {
        let k = choose|k: int|
            0 <= k < d.len() && changes(
                #[trigger] d[k],
                ChangeKind::Replace,
                base + ".media."@ + media[i].0 + ".screenshots."@
                    + media[i].1.screenshots.entries()[j].0.asc_display_type_of(),
            );
        assert(plan[before + k] == d[k]);
    }
    assert forall|i: int, j: int|
        #![trigger media[i].1.app_previews.entries()[j]]
        0 <= i < media.len() && 0 <= j < media[i].1.app_previews.entries().len() implies exists|
        k: int,
    |
        0 <= k < plan.len() && changes(
            #[trigger] plan[k],
            ChangeKind::Replace,
            base + ".media."@ + media[i].0 + ".app_previews."@
                + media[i].1.app_previews.entries()[j].0.asc_preview_type_of(),
        ) by {
        let k = choose|k: int|
            0 <= k < d.len() && changes(
                #[trigger] d[k],
                ChangeKind::Replace,
                base + ".media."@ + media[i].0 + ".app_previews."@
                    + media[i].1.app_previews.entries()[j].0.asc_preview_type_of(),
            );
        assert(plan[before + k] == d[k]);
    }
}

/// Each entry of a list is told once, in its order, under its own key, and nothing is sent for it.
pub proof fn law_each_entry_is_told<V>(
    kind: ChangeKind,
    prefix: Seq<char>,
    entries: Seq<(Seq<char>, V)>,
    detail: Seq<char>,
    n: nat,
)
    requires
        n <= entries.len(),
    ensures
        told_each(kind, prefix, entries, detail, n).len() == n,
        forall|i: int|
            0 <= i < n ==> {
                let step = #[trigger] told_each(kind, prefix, entries, detail, n)[i];
                changes(step.change, kind, prefix + entries[i].0) && step.requests.len() == 0
            },
    decreases n,
{
    if n > 0 {
        law_each_entry_is_told(kind, prefix, entries, detail, (n - 1) as nat);
    }
}

/// Prices and availabilities of purchases are told just where they are configured, and nothing is sent
/// for them.
pub proof fn law_followups_are_told(subject: Seq<char>, pricing: bool, availability: bool)
    ensures
        ({
            let steps = followup_steps(subject, pricing, availability);
            &&& steps.len() == (if pricing {
                1int
            } else {
                0
            }) + (if availability {
                1int
            } else {
                0
            })
            &&& pricing ==> steps[0].change.subject == subject + ".pricing"@
            &&& availability ==> steps.last().change.subject == subject + ".availability"@
            &&& forall|i: int|
                0 <= i < steps.len() ==> (#[trigger] steps[i]).requests.len() == 0
                    && steps[i].change.kind == ChangeKind::Update
        }),
{
}

/// What there is to do for the localizations of a purchase is what there is to do for each of them.
pub proof fn law_commerce_localizations_one_by_one(
    sync: AppStoreSync,
    subject: Seq<char>,
    resource_id: Seq<char>,
    kind: CommerceKind,
    current: Seq<RemoteResource>,
    wanted: Seq<(Seq<char>, ResolvedCommerceLocalization)>,
    n: nat,
    step: StepView,
)
    requires
        n <= wanted.len(),
    ensures
        commerce_localization_steps(
            sync,
            subject,
            resource_id,
            kind,
            current,
            wanted,
            n,
        ).contains(step) <==> exists|i: int|
            0 <= i < n && commerce_localization_step(
                sync,
                subject,
                resource_id,
                kind,
                current,
                (#[trigger] wanted[i]).0,
                wanted[i].1,
            ) == Some(step),
    decreases n,
{
    if n > 0 {
        law_commerce_localizations_one_by_one(
            sync,
            subject,
            resource_id,
            kind,
            current,
            wanted,
            (n - 1) as nat,
            step,
        );
        let before = commerce_localization_steps(
            sync,
            subject,
            resource_id,
            kind,
            current,
            wanted,
            (n - 1) as nat,
        );
        let item = commerce_localization_step(
            sync,
            subject,
            resource_id,
            kind,
            current,
            wanted[n - 1].0,
            wanted[n - 1].1,
        );
        lemma_one_more(before, item, step);
    }
}

/// What there is to do for the localizations of a subscription group is what there is to do for each of
/// them.
pub proof fn law_group_localizations_one_by_one(
    sync: AppStoreSync,
    subject: Seq<char>,
    group_id: Seq<char>,
    current: Seq<RemoteResource>,
    wanted: Seq<(Seq<char>, ResolvedSubscriptionGroupLocalization)>,
    n: nat,
    step: StepView,
)
    requires
        n <= wanted.len(),
    ensures
        group_localization_steps(sync, subject, group_id, current, wanted, n).contains(step)
            <==> exists|i: int|
            0 <= i < n && group_localization_step(
                sync,
                subject,
                group_id,
                current,
                (#[trigger] wanted[i]).0,
                wanted[i].1,
            ) == Some(step),
    decreases n,
{
    if n > 0 {
        law_group_localizations_one_by_one(
            sync,
            subject,
            group_id,
            current,
            wanted,
            (n - 1) as nat,
            step,
        );
        let before = group_localization_steps(
            sync,
            subject,
            group_id,
            current,
            wanted,
            (n - 1) as nat,
        );
        let item = group_localization_step(
            sync,
            subject,
            group_id,
            current,
            wanted[n - 1].0,
            wanted[n - 1].1,
        );
        lemma_one_more(before, item, step);
    }
}

proof fn lemma_one_more(before: Seq<StepView>, item: Option<StepView>, step: StepView)
    ensures
        crate::sync::and_then(before, item).contains(step) <==> before.contains(step) || item
            == Some(step),
{
    let after = crate::sync::and_then(before, item);
    if let Some(found) = item {
        assert(after[after.len() - 1] == found);
        if before.contains(step) {
            let i = choose|i: int| 0 <= i < before.len() && before[i] == step;
            assert(after[i] == step);
        }
        if after.contains(step) {
            let i = choose|i: int| 0 <= i < after.len() && after[i] == step;
            if i < before.len() {
                assert(before[i] == step);
            }
        }
    }
}

/// The product id and the type of a purchase never change: a purchase of the account with others is
/// refused, and one with the same passes.
pub proof fn law_purchases_keep_their_identity(
    app_key: Seq<char>,
    iap_key: Seq<char>,
    iap: InAppPurchaseSpec,
    existing: RemoteResource,
)
    ensures
        iap_message(app_key, iap_key, iap, Some(&existing)) is None <==> existing.text_of(
            "productId"@,
        ) == Some(iap.product_id@) && existing.text_of("inAppPurchaseType"@) == Some(
            iap.kind.asc_value_of(),
        ),
        iap_message(app_key, iap_key, iap, None) is None,
{
}

/// The product id of a subscription never changes.
pub proof fn law_subscriptions_keep_their_identity(
    subject: Seq<char>,
    subscription: SubscriptionSpec,
    existing: RemoteResource,
)
    ensures
        subscription_message(subject, subscription, Some(&existing)) is None <==> existing.text_of(
            "productId"@,
        ) == Some(subscription.product_id@),
        subscription_message(subject, subscription, None) is None,
{
}

/// Media files pass just where there is one and each of them exists and is a file.
pub proof fn law_media_files_pass(files: Seq<MediaPath>)
    ensures
        earlier(
            due_if(files.len() == 0, "media path list resolved to no files"@),
            first_message(media_path_checks(files), 0, files.len() as int),
        ) is None <==> files.len() > 0 && forall|i: int|
            0 <= i < files.len() ==> (#[trigger] files[i]).exists && files[i].is_file,
{
    let f = media_path_checks(files);
    lemma_first_message_none(f, 0, files.len() as int);
    if forall|i: int| 0 <= i < files.len() ==> (#[trigger] f(i)) is None {
        assert forall|i: int| 0 <= i < files.len() implies (#[trigger] files[i]).exists
            && files[i].is_file by {
            assert(f(i) is None);
        }
    }
}

/// Shared attributes lack nothing just where each of their sources is known.
pub proof fn law_shared_attributes_lack_nothing(context: ResolveContext, shared: AppSharedSpec)
    ensures
        shared_lacks(context, shared) is None <==> source_known(context, shared.primary_locale)
            && source_known(context, shared.accessibility_url) && source_known(
            context,
            shared.subscription_status_url,
        ) && source_known(context, shared.subscription_status_url_for_sandbox),
{
}

/// Localizations and review details lack nothing just where each of their sources is known.
pub proof fn law_filled_texts_lack_nothing(
    context: ResolveContext,
    info: AppInfoLocalizationSpec,
    version: AppVersionLocalizationSpec,
    review: AppReviewSpec,
)
    ensures
        ResolvedAppInfoLocalization::lacks(context, info) is None <==> source_known(
            context,
            Some(info.name),
        ) && source_known(context, info.subtitle) && source_known(context, info.privacy_policy_url)
            && source_known(context, info.privacy_choices_url) && source_known(
            context,
            info.privacy_policy_text,
        ),
        ResolvedVersionLocalization::lacks(context, version) is None <==> (
        version.keywords matches Some(KeywordsSpec::String(source)) ==> source_known(
            context,
            Some(source),
        )) && source_known(context, version.description) && source_known(
            context,
            version.marketing_url,
        ) && source_known(context, version.promotional_text) && source_known(
            context,
            version.support_url,
        ) && source_known(context, version.whats_new),
        ResolvedReview::lacks(context, review) is None <==> source_known(
            context,
            review.contact_first_name,
        ) && source_known(context, review.contact_last_name) && source_known(
            context,
            review.contact_phone,
        ) && source_known(context, review.contact_email) && source_known(
            context,
            review.demo_account_name,
        ) && source_known(context, review.demo_account_password) && source_known(
            context,
            review.notes,
        ),
{
}

/// A file is announced with its name and its size, and its media type where it has one, for the set or
/// the review details that it belongs to.
pub proof fn law_files_are_announced(
    api: AppStoreApi,
    kind: AssetKind,
    owner_id: Seq<char>,
    name: Seq<char>,
    size: nat,
    mime: Option<Seq<char>>,
)
    ensures
        ({
            let request = api.reserve_view(kind, owner_id, name, size, mime);
            let (own, key, owner) = match kind {
                AssetKind::Screenshot => (
                    "appScreenshots"@,
                    "appScreenshotSet"@,
                    "appScreenshotSets"@,
                ),
                AssetKind::Preview => ("appPreviews"@, "appPreviewSet"@, "appPreviewSets"@),
                AssetKind::ReviewAttachment => (
                    "appStoreReviewAttachments"@,
                    "appStoreReviewDetail"@,
                    "appStoreReviewDetails"@,
                ),
            };
            &&& request.verb == Verb::Post
            &&& request.url == api.base_url@ + "/"@ + own
            &&& told_text(request, "type"@) == Some(own)
            &&& sent(request, "fileName"@) == Some(JsonView::Text(name))
            &&& sent(request, "fileSize"@) == Some(JsonView::Number(decimal(size)))
            &&& sent(request, "mimeType"@) == (match mime {
                Some(text) => Some(JsonView::Text(text)),
                None => None,
            })
            &&& sent_link(request, key) == Some((JsonView::Text(owner), JsonView::Text(owner_id)))
        }),
{
    reveal_strlit("fileName");
    reveal_strlit("fileSize");
    reveal_strlit("mimeType");
    assert("fileName"@.len() == 8 && "fileSize"@.len() == 8 && "mimeType"@.len() == 8);
    assert("fileName"@[4] == 'N' && "fileSize"@[4] == 'S' && "mimeType"@[0] == 'm'
        && "fileName"@[0] == 'f' && "fileSize"@[0] == 'f');
    reveal_strlit("appScreenshots");
    reveal_strlit("appPreviews");
    reveal_strlit("appStoreReviewAttachments");
    let names = kind.names();
    let links = related(names.1, names.2, owner_id);
    let attrs = crate::app_store::requests::with_text(
        crate::app_store::requests::file_members(name, size),
        "mimeType"@,
        mime,
    );
    lemma_post(api, "/"@ + names.0, names.0, attrs, links);
    assert(links[names.1] == link_view(names.2, owner_id));
    let request = api.post_view("/"@ + names.0, names.0, attrs, links);
    assert(sent_link(request, names.1) is Some);
}

/// A file that was sent is said to be uploaded, with its checksum.
pub proof fn law_files_are_committed(checksum: Seq<char>)
    ensures
        uploaded_members(checksum).contains_key("sourceFileChecksum"@),
        uploaded_members(checksum)["sourceFileChecksum"@] == JsonView::Text(checksum),
        uploaded_members(checksum).contains_key("uploaded"@),
        uploaded_members(checksum)["uploaded"@] == JsonView::Bool(true),
{
    reveal_strlit("sourceFileChecksum");
    reveal_strlit("uploaded");
    assert("sourceFileChecksum"@.len() == 18 && "uploaded"@.len() == 8);
}

/// Keywords are attached to the localization of a page, each by its id and in its order.
pub proof fn law_keywords_are_attached(
    api: AppStoreApi,
    localization_id: Seq<char>,
    ids: Seq<Seq<char>>,
)
    ensures
        ({
            let request = api.attached_keywords(localization_id, ids);
            &&& request.verb == Verb::Post
            &&& request.url == api.base_url@ + ("/appCustomProductPageLocalizations/"@
                + localization_id + "/relationships/searchKeywords"@)
            &&& request.body matches Some(body) && member(body, "data"@) matches Some(
                JsonView::Array(items),
            ) && items.len() == ids.len() && forall|i: int|
                0 <= i < ids.len() ==> member(#[trigger] items[i], "id"@) == Some(
                    JsonView::Text(ids[i]),
                ) && member(items[i], "type"@) == Some(JsonView::Text("appKeywords"@))
        }),
{
    reveal_strlit("/appCustomProductPageLocalizations/");
    reveal_strlit("id");
    reveal_strlit("type");
    assert("id"@.len() == 2 && "type"@.len() == 4);
    lemma_endpoint(
        api.base_url@,
        "/appCustomProductPageLocalizations/"@ + localization_id
            + "/relationships/searchKeywords"@,
    );
}

/// A file of a page, a purchase or an event is announced with its name, its size and what else its
/// kind needs, for the resource that it belongs to.
pub proof fn law_other_files_are_announced(
    api: AppStoreApi,
    target: AssetUploadTarget,
    file_name: Seq<char>,
    file_size: nat,
    extra: MembersView,
    key: Seq<char>,
)
    ensures
        ({
            let request = api.announced_asset(target, file_name, file_size, extra);
            &&& request.verb == Verb::Post
            &&& told_text(request, "type"@) == Some(target.resource_type@)
            &&& sent_link(request, target.relationship_key@) == Some(
                (
                    JsonView::Text(target.relationship_type@),
                    JsonView::Text(target.relationship_id@),
                ),
            )
            &&& extra.contains_key(key) ==> sent(request, key) == Some(extra[key])
            &&& !extra.contains_key("fileName"@) ==> sent(request, "fileName"@) == Some(
                JsonView::Text(file_name),
            )
            &&& !extra.contains_key("fileSize"@) ==> sent(request, "fileSize"@) == Some(
                JsonView::Number(decimal(file_size)),
            )
        }),
{
    reveal_strlit("fileName");
    reveal_strlit("fileSize");
    assert("fileName"@[4] == 'N' && "fileSize"@[4] == 'S');
    let request = api.announced_asset(target, file_name, file_size, extra);
    let attrs = crate::app_store::resources::requests::extended(
        crate::app_store::requests::file_members(file_name, file_size),
        extra,
    );
    let links = related(
        target.relationship_key@,
        target.relationship_type@,
        target.relationship_id@,
    );
    lemma_body(request, None, target.resource_type@, attrs, links);
    assert(links[target.relationship_key@] == link_view(
        target.relationship_type@,
        target.relationship_id@,
    ));
    assert(sent_link(request, target.relationship_key@) is Some);
}

/// A file that was sent is said to be uploaded; its checksum is told too, unless it is of an event.
pub proof fn law_other_files_are_committed(resource_type: Seq<char>, checksum: Seq<char>)
    ensures
        ({
            let members = AppStoreApi::sent_members(resource_type, checksum);
            &&& members.contains_key("uploaded"@)
            &&& members["uploaded"@] == JsonView::Bool(true)
            &&& members.contains_key("sourceFileChecksum"@) <==> !starts(resource_type, "appEvent"@)
            &&& !starts(resource_type, "appEvent"@) ==> members["sourceFileChecksum"@]
                == JsonView::Text(checksum)
        }),
{
    law_files_are_committed(checksum);
    reveal_strlit("sourceFileChecksum");
    reveal_strlit("uploaded");
    assert("sourceFileChecksum"@.len() == 18 && "uploaded"@.len() == 8);
}

/// A media set of a page is created with its type, for the localization that it belongs to.
pub proof fn law_related_sets_are_created(
    api: AppStoreApi,
    key: Seq<char>,
    kind: Seq<char>,
    localization_id: Seq<char>,
    media_type: Seq<char>,
)
    ensures
        ({
            let shots = api.new_related_screenshot_set(key, kind, localization_id, media_type);
            let previews = api.new_related_preview_set(key, kind, localization_id, media_type);
            &&& shots.verb == Verb::Post && previews.verb == Verb::Post
            &&& shots.url == api.base_url@ + "/"@ + "appScreenshotSets"@
            &&& previews.url == api.base_url@ + "/"@ + "appPreviewSets"@
            &&& told_text(shots, "type"@) == Some("appScreenshotSets"@)
            &&& told_text(previews, "type"@) == Some("appPreviewSets"@)
            &&& sent(shots, "screenshotDisplayType"@) == Some(JsonView::Text(media_type))
            &&& sent(previews, "previewType"@) == Some(JsonView::Text(media_type))
            &&& sent_link(shots, key) == Some(
                (JsonView::Text(kind), JsonView::Text(localization_id)),
            )
            &&& sent_link(previews, key) == Some(
                (JsonView::Text(kind), JsonView::Text(localization_id)),
            )
        }),
{
    reveal_strlit("/");
    reveal_strlit("/appScreenshotSets");
    reveal_strlit("appScreenshotSets");
    reveal_strlit("/appPreviewSets");
    reveal_strlit("appPreviewSets");
    assert("/appScreenshotSets"@ =~= "/"@ + "appScreenshotSets"@);
    assert("/appPreviewSets"@ =~= "/"@ + "appPreviewSets"@);
    let links = related(key, kind, localization_id);
    assert(links[key] == link_view(kind, localization_id));
    let none = Map::<Seq<char>, JsonView>::empty();
    lemma_post(
        api,
        "/appScreenshotSets"@,
        "appScreenshotSets"@,
        none.insert("screenshotDisplayType"@, JsonView::Text(media_type)),
        links,
    );
    lemma_post(
        api,
        "/appPreviewSets"@,
        "appPreviewSets"@,
        none.insert("previewType"@, JsonView::Text(media_type)),
        links,
    );
    assert(sent_link(
        api.new_related_screenshot_set(key, kind, localization_id, media_type),
        key,
    ) is Some);
    assert(sent_link(
        api.new_related_preview_set(key, kind, localization_id, media_type),
        key,
    ) is Some);
}

/// A plan for a new page, event, group or purchase tells each thing that it will need once: the
/// version of a page, each localization, all media, each subscription, and the prices, the availability
/// and the review screenshot that are configured. Nothing is sent for any of them.
pub proof fn law_plans_tell_all_of_new_resources(
    app_key: Seq<char>,
    key: Seq<char>,
    pages: OrderedMap<ResolvedCustomProductPageLocalization>,
    page_media: OrderedMap<AppMediaLocalizationSpec>,
    events: OrderedMap<ResolvedAppEventLocalization>,
    event_media: OrderedMap<AppEventMediaSpec>,
    groups: OrderedMap<ResolvedSubscriptionGroupLocalization>,
    subscriptions: OrderedMap<SubscriptionSpec>,
    texts: OrderedMap<ResolvedCommerceLocalization>,
    pricing: bool,
    availability: bool,
    screenshot: bool,
)
    ensures
        ({
            let page = page_children(app_key, key, pages, page_media);
            let event = event_children(app_key, key, events, event_media);
            let group = group_children(app_key, key, groups, subscriptions);
            let product = commerce_children(key, texts, pricing, availability, screenshot);
            &&& page.len() == 1 + pages.entries().len() + page_media.entries().len()
            &&& event.len() == events.entries().len() + event_media.entries().len()
            &&& group.len() == groups.entries().len() + subscriptions.entries().len()
            &&& product.len() == texts.entries().len() + (if pricing {
                1int
            } else {
                0
            }) + (if availability {
                1int
            } else {
                0
            }) + (if screenshot {
                1int
            } else {
                0
            })
            &&& only_told(page) && only_told(event) && only_told(group) && only_told(product)
            &&& screenshot ==> changes(
                product.last().change,
                ChangeKind::Replace,
                key + ".review.screenshot"@,
            )
        }),
{
    let create = ChangeKind::Create;
    let replace = ChangeKind::Replace;
    let page = crate::app_store::resources::pages::page_subject(app_key, key);
    let event = crate::app_store::resources::events::event_subject(app_key, key);
    let group = crate::app_store::resources::commerce::group_subject(app_key, key);
    law_each_entry_is_told(
        create,
        page + ".localizations."@,
        pages.entries(),
        "create custom product page localization"@,
        pages.entries().len(),
    );
    law_each_entry_is_told(
        replace,
        page + ".media."@,
        page_media.entries(),
        "replace custom product page media"@,
        page_media.entries().len(),
    );
    law_each_entry_is_told(
        create,
        event + ".localizations."@,
        events.entries(),
        "create app event localization"@,
        events.entries().len(),
    );
    law_each_entry_is_told(
        replace,
        event + ".media."@,
        event_media.entries(),
        "replace app event media"@,
        event_media.entries().len(),
    );
    law_each_entry_is_told(
        create,
        group + ".localizations."@,
        groups.entries(),
        "create subscription group localization"@,
        groups.entries().len(),
    );
    law_each_entry_is_told(
        create,
        group + ".subscriptions."@,
        subscriptions.entries(),
        "create subscription"@,
        subscriptions.entries().len(),
    );
    law_each_entry_is_told(
        create,
        key + ".localizations."@,
        texts.entries(),
        "create commerce localization"@,
        texts.entries().len(),
    );
    law_followups_are_told(key, pricing, availability);
}

/// Nothing is sent for any of several steps.
pub open spec fn only_told(steps: Seq<StepView>) -> bool {
    forall|i: int| 0 <= i < steps.len() ==> (#[trigger] steps[i]).requests.len() == 0
}

/// A run changes nothing but its journal. A plan writes down what there is to do and sends nothing; a
/// run that applies writes down the same and sends just what it needs; where there is nothing to do,
/// nothing is written and nothing is sent.
pub proof fn law_runs_change_only_the_journal(
    before: AppStoreSync,
    after: AppStoreSync,
    step: Option<StepView>,
    notice: Option<Seq<char>>,
    outcome: Outcome,
)
    requires
        ended(before, after, step, notice, outcome),
    ensures
        after.api == before.api,
        after.context == before.context,
        after.journal.mode == before.journal.mode,
        owned(outcome.notice) == notice,
        before.journal.mode == Mode::Plan ==> outcome.requests@.len() == 0,
        step is None ==> outcome.requests@.len() == 0 && after.journal.recorded()
            == before.journal.recorded(),
        step matches Some(todo) ==> {
            &&& after.journal.recorded() == before.journal.recorded().push(todo.change)
            &&& before.journal.mode == Mode::Apply ==> request_views(outcome.requests@)
                == todo.requests
        },
{
    assert(request_views(outcome.requests@).len() == outcome.requests@.len());
}

/// The same of several things to do.
pub proof fn law_runs_of_several_steps_change_only_the_journal(
    before: AppStoreSync,
    after: AppStoreSync,
    steps: Seq<StepView>,
    requests: Seq<ApiRequest>,
)
    requires
        ran_all(before, after, steps, requests),
    ensures
        after.api == before.api,
        after.context == before.context,
        after.journal.mode == before.journal.mode,
        before.journal.mode == Mode::Plan ==> requests.len() == 0,
        after.journal.recorded().len() == before.journal.recorded().len() + steps.len(),
        forall|i: int|
            0 <= i < steps.len() ==> after.journal.recorded()[before.journal.recorded().len() + i]
                == (#[trigger] steps[i]).change,
{
    assert(request_views(requests).len() == requests.len());
}

/// The texts of pages, purchases, groups and events lack nothing just where each of their sources is
/// known.
pub proof fn law_other_texts_lack_nothing(
    context: ResolveContext,
    purchase: CommerceLocalizationSpec,
    group: SubscriptionGroupLocalizationSpec,
    event_text: AppEventLocalizationSpec,
    page_text: CustomProductPageLocalizationSpec,
    page: CustomProductPageSpec,
    event: AppEventSpec,
)
    ensures
        ResolvedCommerceLocalization::lacks(context, purchase) is None <==> source_known(
            context,
            Some(purchase.name),
        ) && source_known(context, purchase.description),
        ResolvedSubscriptionGroupLocalization::lacks(context, group) is None <==> source_known(
            context,
            Some(group.name),
        ) && source_known(context, group.custom_app_name),
        ResolvedAppEventLocalization::lacks(context, event_text) is None <==> source_known(
            context,
            event_text.name,
        ) && source_known(context, event_text.short_description) && source_known(
            context,
            event_text.long_description,
        ),
        ResolvedCustomProductPageLocalization::lacks(context, page_text) is None <==> source_known(
            context,
            page_text.promotional_text,
        ),
        ResolvedCustomProductPage::lacks(context, page) is None <==> source_known(
            context,
            Some(page.name),
        ) && source_known(context, page.deep_link),
        ResolvedAppEvent::lacks(context, event) is None <==> source_known(
            context,
            Some(event.reference_name),
        ) && source_known(context, event.deep_link) && source_known(
            context,
            event.purchase_requirement,
        ),
{
}

} // verus!
