//! Which changes bring availability, prices and custom product pages up to date.

use vstd::prelude::*;
use vstd::string::*;
use crate::api::ApiRequest;
use crate::app_store::reconcile::{
    compare_text, compared, one_step, ran, ran_all, replaced_set, replacement, AppStoreSync,
};
use crate::app_store::requests::{no_members, MembersView};
use crate::app_store::resolve::{optional_matches, safe_path_segment, safe_segment, wanted_is};
use crate::app_store::resources::prices::ResolvedPriceSchedule;
use crate::app_store::resources::{
    compare_optional_bool_value, compared_truth, RemoteResource, ResolvedCustomProductPage,
    ResolvedCustomProductPageLocalization,
};
use crate::app_store::upload::{uploaded, uploaded_assets_match_ordered, LocalFile};
use crate::app_store::{MediaAsset, MediaSet};
use crate::config::{
    AppAvailabilitySpec, AppMediaLocalizationSpec, AppPrivacySpec, CommercePricingSpec,
    MediaPreviewSet, MediaScreenshotSet, TerritorySelectionMode, TerritorySelectionSpec,
};
use crate::json::Members;
use crate::ordered::{precedes, OrderedMap, StringSet};
use crate::paths::{join_path, under};
use crate::sync::{
    followed, followed_all, lemma_nothing_followed, lemma_one_more, no_requests, request_views,
    step_changes, step_requests, told, ChangeKind, Journal, Mode, StepView,
};
use crate::text::{
    as_deref, cat, cat3, failure, given, owned, same, texts, Error,
};

verus! {

/// The territories of a choice, each once and in their order.
pub fn desired_available_territories(selection: &TerritorySelectionSpec, all: &Vec<String>) -> (ids:
    Vec<String>)
    ensures
        texts(ids@).to_set() == texts(
            if selection.mode == TerritorySelectionMode::All {
                all@
            } else {
                selection.values@
            },
        ).to_set(),
        forall|i: int, j: int|
            0 <= i < j < ids@.len() ==> precedes((#[trigger] ids@[i])@, (#[trigger] ids@[j])@),
{
    match selection.mode {
        TerritorySelectionMode::All => distinct(all),
        TerritorySelectionMode::Only => distinct(&selection.values),
        TerritorySelectionMode::Include => distinct(&selection.values),
    }
}

fn distinct(items: &Vec<String>) -> (ids: Vec<String>)
    ensures
        texts(ids@).to_set() == texts(items@).to_set(),
        forall|i: int, j: int|
            0 <= i < j < ids@.len() ==> precedes((#[trigger] ids@[i])@, (#[trigger] ids@[j])@),
{
    let mut set = StringSet::new();
    let mut i: usize = 0;
    proof {
        assert(set@ =~= texts(items@).take(0).to_set());
    }
    while i < items.len()
        invariant
            i <= items.len(),
            set@ == texts(items@).take(i as int).to_set(),
        decreases items.len() - i,
    {
        set.insert(items[i].clone());
        proof {
            let all = texts(items@);
            let item = items@[i as int]@;
            assert(all[i as int] == item);
            assert(all.take(i + 1) =~= all.take(i as int).push(item));
            assert forall|x: Seq<char>|
                all.take(i as int).push(item).to_set().contains(x) == all.take(
                    i as int,
                ).to_set().insert(item).contains(x) by {
                let longer = all.take(i as int).push(item);
                if longer.contains(x) {
                    let k = choose|k: int| 0 <= k < longer.len() && longer[k] == x;
                    if k < i {
                        assert(all.take(i as int)[k] == x);
                    }
                }
                if all.take(i as int).contains(x) {
                    let k = choose|k: int| 0 <= k < i && all.take(i as int)[k] == x;
                    assert(longer[k] == x);
                }
                assert(longer[i as int] == item);
            }
            assert(all.take(i + 1).to_set() =~= all.take(i as int).to_set().insert(item));
        }
        i += 1;
    }
    proof {
        assert(texts(items@).take(i as int) =~= texts(items@));
    }
    set.sorted()
}

/// What there is to do for the availability of an app.
pub open spec fn availability_steps(
    sync: AppStoreSync,
    app_key: Seq<char>,
    app_id: Seq<char>,
    availability: AppAvailabilitySpec,
    exists_already: bool,
    territories: Seq<Seq<char>>,
) -> Seq<StepView> {
    let subject = "app."@ + app_key + ".availability"@;
    if availability.territories is None {
        seq![
            told(
                ChangeKind::Update,
                subject,
                "pre-order settings require App Store Connect review state; verify them manually"@,
            ),
        ]
    } else if exists_already {
        seq![
            told(
                ChangeKind::Update,
                subject,
                "existing app availability is not changed automatically; territory removals and pre-order changes are review-sensitive"@,
            ),
        ]
    } else {
        let created = one_step(
            ChangeKind::Create,
            subject,
            "create App Availability V2 from configured territories"@,
            sync.api.new_availability(
                app_id,
                match availability.available_in_new_territories {
                    Some(value) => value,
                    None => true,
                },
                territories,
            ),
        );
        if availability.pre_order is Some {
            seq![
                created,
                told(
                    ChangeKind::Update,
                    "app."@ + app_key + ".availability.pre_order"@,
                    "pre-order settings are review-sensitive; verify/apply them manually in App Store Connect"@,
                ),
            ]
        } else {
            seq![created]
        }
    }
}

/// The message of a price schedule that may not be replaced.
pub open spec fn pricing_message(app_key: Seq<char>) -> Seq<char> {
    "app "@ + app_key

            + " pricing differs; set pricing.replace_future_schedule=true to replace the ASC price schedule"@
}

/// What there is to do for the price schedule of an app.
pub open spec fn pricing_step(
    sync: AppStoreSync,
    app_key: Seq<char>,
    app_id: Seq<char>,
    desired: ResolvedPriceSchedule,
    current: Option<&ResolvedPriceSchedule>,
) -> Option<StepView> {
    if current matches Some(found) && found@ == desired@ {
        None
    } else {
        Some(
            one_step(
                ChangeKind::Replace,
                "app."@ + app_key + ".pricing"@,
                "replace app price schedule"@,
                sync.api.new_price_schedule(app_id, desired),
            ),
        )
    }
}

/// The subject of changes to a page.
pub open spec fn page_subject(app_key: Seq<char>, page_key: Seq<char>) -> Seq<char> {
    "app."@ + app_key + ".custom_product_pages."@ + page_key
}

fn page_name(app_key: &str, page_key: &str) -> (subject: String)
    ensures
        subject@ == page_subject(app_key@, page_key@),
{
    cat3("app.", app_key, ".custom_product_pages.").concat(page_key)
}

/// The attributes of a page that are not as wanted.
pub open spec fn page_attrs(desired: ResolvedCustomProductPage, existing: RemoteResource) ->
    MembersView {
    compared_truth(
        compared(
            no_members(),
            "name"@,
            Some(desired.name@),
            existing.text_of("name"@),
        ),
        "visible"@,
        desired.visible,
        existing.truth_of("visible"@),
    )
}

/// What there is to do for a page.
pub open spec fn page_step(
    sync: AppStoreSync,
    app_key: Seq<char>,
    app_id: Seq<char>,
    page_key: Seq<char>,
    desired: ResolvedCustomProductPage,
    existing: Option<&RemoteResource>,
) -> Option<StepView> {
    match existing {
        Some(found) => {
            let attrs = page_attrs(desired, *found);
            if attrs == no_members() {
                None
            } else {
                Some(
                    one_step(
                        ChangeKind::Update,
                        page_subject(app_key, page_key),
                        "ensure custom product page attributes match config"@,
                        sync.api.changed_page(found.id@, attrs),
                    ),
                )
            }
        },
        None => Some(
            one_step(
                ChangeKind::Create,
                page_subject(app_key, page_key),
                "create custom product page"@,
                sync.api.new_page(app_id, desired.name@),
            ),
        ),
    }
}

/// One thing to tell for each key of a map, among the first `n`.
pub open spec fn told_each<V>(
    kind: ChangeKind,
    prefix: Seq<char>,
    entries: Seq<(Seq<char>, V)>,
    detail: Seq<char>,
    n: nat,
) -> Seq<StepView>
    decreases n,
{
    if n == 0 || n > entries.len() {
        seq![]
    } else {
        told_each(kind, prefix, entries, detail, (n - 1) as nat).push(
            told(kind, prefix + entries[n - 1].0, detail),
        )
    }
}

/// The first version of a page that can be changed.
pub open spec fn editable_version(versions: Seq<RemoteResource>, i: int) -> Option<RemoteResource>
    decreases versions.len() - i,
{
    if i < 0 || i >= versions.len() {
        None
    } else if versions[i].editable_page_version() {
        Some(versions[i])
    } else {
        editable_version(versions, i + 1)
    }
}

/// The first version of a page that can be changed.
pub fn found_page_version<'a>(versions: &'a Vec<RemoteResource>) -> (version: Option<
    &'a RemoteResource,
>)
    ensures
        match editable_version(versions@, 0) {
            Some(found) => version == Some(&found),
            None => version is None,
        },
{
    let mut i: usize = 0;
    while i < versions.len()
        invariant
            i <= versions.len(),
            editable_version(versions@, 0) == editable_version(versions@, i as int),
        decreases versions.len() - i,
    {
        if versions[i].is_editable_custom_product_page_version() {
            return Some(&versions[i]);
        }
        i += 1;
    }
    None
}

/// The texts of one row that do not stand in another, in their order.
pub open spec fn missing_from(desired: Seq<Seq<char>>, current: Seq<Seq<char>>) -> Seq<Seq<char>>
    decreases desired.len(),
{
    if desired.len() == 0 {
        seq![]
    } else {
        let before = missing_from(desired.drop_last(), current);
        if current.contains(desired.last()) {
            before
        } else {
            before.push(desired.last())
        }
    }
}

fn holds(items: &Vec<String>, item: &str) -> (result: bool)
    ensures
        result == texts(items@).contains(item@),
{
    let mut i: usize = 0;
    while i < items.len()
        invariant
            i <= items.len(),
            forall|k: int| 0 <= k < i ==> (#[trigger] texts(items@)[k]) != item@,
        decreases items.len() - i,
    {
        proof {
            assert(texts(items@)[i as int] == items@[i as int]@);
        }
        if same(items[i].as_str(), item) {
            return true;
        }
        i += 1;
    }
    false
}

fn missing_ids(desired: &Vec<String>, current: &Vec<String>) -> (missing: Vec<String>)
    ensures
        texts(missing@) == missing_from(texts(desired@), texts(current@)),
{
    let mut missing: Vec<String> = Vec::new();
    let mut i: usize = 0;
    proof {
        assert(texts(missing@) =~= missing_from(texts(desired@).take(0), texts(current@)));
    }
    while i < desired.len()
        invariant
            i <= desired.len(),
            texts(missing@) == missing_from(texts(desired@).take(i as int), texts(current@)),
        decreases desired.len() - i,
    {
        proof {
            let longer = texts(desired@).take(i + 1);
            assert(longer.drop_last() =~= texts(desired@).take(i as int));
            assert(longer.last() == desired@[i as int]@);
        }
        if !holds(current, desired[i].as_str()) {
            let ghost before = texts(missing@);
            missing.push(desired[i].clone());
            proof {
                assert(texts(missing@) =~= before.push(desired@[i as int]@));
            }
        }
        i += 1;
    }
    proof {
        assert(texts(desired@).take(i as int) =~= texts(desired@));
    }
    missing
}

/// The directory in which the screenshots of a page are rendered.
pub open spec fn page_render_dir(
    base: Seq<char>,
    app_key: Seq<char>,
    page_key: Seq<char>,
    locale: Seq<char>,
    set: MediaScreenshotSet,
) -> Seq<char> {
    let app = under(base, safe_segment(app_key));
    let pages = under(app, "custom_product_pages"@);
    let page = under(pages, safe_segment(page_key));
    under(under(page, safe_segment(locale)), set.config_key_of())
}

/// The directory in which the screenshots of a page are rendered.
pub fn page_render_path(
    base: &str,
    app_key: &str,
    page_key: &str,
    locale: &str,
    set: MediaScreenshotSet,
) -> (path: String)
    ensures
        path@ == page_render_dir(base@, app_key@, page_key@, locale@, set),
{
    let app = join_path(base, safe_path_segment(app_key).as_str());
    let pages = join_path(app.as_str(), "custom_product_pages");
    let page = join_path(pages.as_str(), safe_path_segment(page_key).as_str());
    let folder = join_path(page.as_str(), safe_path_segment(locale).as_str());
    join_path(folder.as_str(), set.config_key())
}

/// Writes down one thing for each key of a map.
pub fn tell_each<V>(
    journal: &mut Journal,
    kind: ChangeKind,
    prefix: &str,
    map: &OrderedMap<V>,
    detail: &str,
)
    ensures
        followed_all(
            *old(journal),
            *final(journal),
            told_each(kind, prefix@, map.entries(), detail@, map.entries().len()),
            seq![],
        ),
{
    let ghost start = *journal;
    let n: usize = map.len();
    let mut i: usize = 0;
    proof {
        lemma_nothing_followed(start);
    }
    while i < n
        invariant
            i <= n == map.entries().len(),
            followed_all(
                start,
                *journal,
                told_each(kind, prefix@, map.entries(), detail@, i as nat),
                seq![],
            ),
        decreases n - i,
    {
        tell(journal, kind, cat(prefix, map.key_at(i).as_str()), detail);
        i += 1;
    }
}

/// Writes down something that needs no request.
pub fn tell(journal: &mut Journal, kind: ChangeKind, subject: String, detail: &str)
    ensures
        followed(*old(journal), *final(journal), Some(told(kind, subject@, detail@)), seq![]),
        forall|before: Journal, steps: Seq<StepView>, requests: Seq<ApiRequest>|
            #![trigger followed_all(before, *old(journal), steps, requests)]
            followed_all(before, *old(journal), steps, requests) ==> followed_all(
                before,
                *final(journal),
                steps.push(told(kind, subject@, detail@)),
                requests,
            ),
{
    let ghost start = *journal;
    let ghost step = told(kind, subject@, detail@);
    journal.record(kind, subject, detail);
    proof {
        assert(request_views(Seq::<ApiRequest>::empty()) =~= Seq::empty());
        assert forall|before: Journal, steps: Seq<StepView>, requests: Seq<ApiRequest>|
            #![trigger followed_all(before, start, steps, requests)]
            followed_all(before, start, steps, requests) implies followed_all(
            before,
            *journal,
            steps.push(step),
            requests,
        ) by {
            lemma_one_more(before, start, *journal, steps, Some(step), requests, seq![]);
            assert(requests + Seq::<ApiRequest>::empty() =~= requests);
        }
    }
}

/// The subject of changes to a page version.
pub open spec fn page_version_subject(app_key: Seq<char>, page_key: Seq<char>) -> Seq<char> {
    page_subject(app_key, page_key) + ".version"@
}

/// A page version that is created.
pub open spec fn page_version_step(
    sync: AppStoreSync,
    app_key: Seq<char>,
    page_key: Seq<char>,
    page_id: Seq<char>,
    deep_link: Option<Seq<char>>,
    versions: Seq<RemoteResource>,
) -> Option<StepView> {
    if editable_version(versions, 0) is Some {
        None
    } else {
        Some(
            one_step(
                ChangeKind::Create,
                page_version_subject(app_key, page_key),
                "create editable custom product page version"@,
                sync.api.new_page_version(page_id, deep_link),
            ),
        )
    }
}

/// The deep link of a page version that is changed.
pub open spec fn deep_link_step(
    sync: AppStoreSync,
    app_key: Seq<char>,
    page_key: Seq<char>,
    version: RemoteResource,
    deep_link: Option<Seq<char>>,
) -> Option<StepView> {
    if version.in_plan() || deep_link == version.text_of("deepLink"@) {
        None
    } else {
        Some(
            one_step(
                ChangeKind::Update,
                page_version_subject(app_key, page_key),
                "ensure custom product page deep link matches config"@,
                sync.api.changed_page_version(version.id@, deep_link),
            ),
        )
    }
}

/// A page localization that is created or changed.
pub open spec fn page_localization_step(
    sync: AppStoreSync,
    app_key: Seq<char>,
    page_key: Seq<char>,
    version_id: Seq<char>,
    locale: Seq<char>,
    desired: ResolvedCustomProductPageLocalization,
    existing: Option<&RemoteResource>,
) -> Option<StepView> {
    let subject = page_subject(app_key, page_key) + ".localizations."@ + locale;
    let detail = "ensure custom product page localization matches config"@;
    match existing {
        Some(found) => if wanted_is(
            owned(desired.promotional_text),
            found.text_of("promotionalText"@),
        ) {
            None
        } else {
            Some(
                one_step(
                    ChangeKind::Update,
                    subject,
                    detail,
                    sync.api.changed_page_localization(found.id@, owned(desired.promotional_text)),
                ),
            )
        },
        None => Some(
            one_step(
                ChangeKind::Create,
                subject,
                detail,
                sync.api.new_page_localization(
                    version_id,
                    locale,
                    owned(desired.promotional_text),
                ),
            ),
        ),
    }
}

/// What a plan tells of a page that is not there yet.
pub open spec fn page_children(
    app_key: Seq<char>,
    page_key: Seq<char>,
    localizations: OrderedMap<ResolvedCustomProductPageLocalization>,
    media: OrderedMap<AppMediaLocalizationSpec>,
) -> Seq<StepView> {
    seq![
        told(
            ChangeKind::Create,
            page_version_subject(app_key, page_key),
            "create editable custom product page version"@,
        ),
    ] + told_each(
        ChangeKind::Create,
        page_subject(app_key, page_key) + ".localizations."@,
        localizations.entries(),
        "create custom product page localization"@,
        localizations.entries().len(),
    ) + told_each(
        ChangeKind::Replace,
        page_subject(app_key, page_key) + ".media."@,
        media.entries(),
        "replace custom product page media"@,
        media.entries().len(),
    )
}

/// Doing several more things.
pub proof fn lemma_more(
    before: Journal,
    between: Journal,
    after: Journal,
    steps: Seq<StepView>,
    others: Seq<StepView>,
    requests: Seq<ApiRequest>,
    more: Seq<ApiRequest>,
)
    requires
        followed_all(before, between, steps, requests),
        followed_all(between, after, others, more),
    ensures
        followed_all(before, after, steps + others, requests + more),
{
    assert(before.recorded() + step_changes(steps + others) =~= before.recorded() + step_changes(
        steps,
    ) + step_changes(others));
    assert(request_views(requests + more) =~= request_views(requests) + request_views(more));
    lemma_requests_of_both(steps, others);
}

proof fn lemma_requests_of_both(steps: Seq<StepView>, others: Seq<StepView>)
    ensures
        step_requests(steps + others) == step_requests(steps) + step_requests(others),
    decreases others.len(),
{
    if others.len() == 0 {
        assert(steps + others =~= steps);
        assert(step_requests(steps) + step_requests(others) =~= step_requests(steps));
    } else {
        assert((steps + others).drop_last() =~= steps + others.drop_last());
        lemma_requests_of_both(steps, others.drop_last());
        assert(step_requests(steps + others) =~= step_requests(steps) + step_requests(others));
    }
}

impl AppStoreSync {
    /// Makes an app available where it was not. What is there already is left to the user.
    pub fn reconcile_app_availability(
        &mut self,
        app_key: &str,
        app_id: &str,
        availability: &AppAvailabilitySpec,
        exists_already: bool,
        territories: &Vec<String>,
    ) -> (requests: Vec<ApiRequest>)
        ensures
            ran_all(
                *old(self),
                *final(self),
                availability_steps(
                    *old(self),
                    app_key@,
                    app_id@,
                    *availability,
                    exists_already,
                    texts(territories@),
                ),
                requests@,
            ),
    {
        let ghost start = self.journal;
        let ghost steps = availability_steps(
            *self,
            app_key@,
            app_id@,
            *availability,
            exists_already,
            texts(territories@),
        );
        proof {
            lemma_nothing_followed(start);
        }
        let subject = cat3("app.", app_key, ".availability");
        if availability.territories.is_none() {
            tell(
                &mut self.journal,
                ChangeKind::Update,
                subject,
                "pre-order settings require App Store Connect review state; verify them manually",
            );
            let requests = no_requests();
            proof {
                assert(requests@ =~= seq![]);
                assert(Seq::<StepView>::empty().push(steps[0]) =~= steps);
            }
            return requests;
        }
        if exists_already {
            tell(
                &mut self.journal,
                ChangeKind::Update,
                subject,
                "existing app availability is not changed automatically; territory removals and pre-order changes are review-sensitive",
            );
            let requests = no_requests();
            proof {
                assert(requests@ =~= seq![]);
                assert(Seq::<StepView>::empty().push(steps[0]) =~= steps);
            }
            return requests;
        }
        let in_new = match availability.available_in_new_territories {
            Some(value) => value,
            None => true,
        };
        let request = self.api.create_app_availability(app_id, in_new, territories);
        let requests = self.journal.step(
            ChangeKind::Create,
            subject,
            "create App Availability V2 from configured territories",
            request,
        );
        let ghost created = steps[0];
        proof {
            lemma_one_more(
                start,
                start,
                self.journal,
                seq![],
                Some(created),
                seq![],
                requests@,
            );
            assert(Seq::<ApiRequest>::empty() + requests@ =~= requests@);
            assert(Seq::<StepView>::empty().push(created) =~= seq![created]);
        }
        if availability.pre_order.is_some() {
            tell(
                &mut self.journal,
                ChangeKind::Update,
                cat3("app.", app_key, ".availability.pre_order"),
                "pre-order settings are review-sensitive; verify/apply them manually in App Store Connect",
            );
            proof {
                assert(seq![created].push(steps[1]) =~= steps);
            }
        }
        requests
    }

    /// Replaces the price schedule of an app where it differs and that is allowed.
    pub fn reconcile_app_pricing(
        &mut self,
        app_key: &str,
        app_id: &str,
        pricing: &CommercePricingSpec,
        desired: &ResolvedPriceSchedule,
        current: Option<&ResolvedPriceSchedule>,
    ) -> (result: Result<Vec<ApiRequest>, Error>)
        ensures
            ({
                let step = pricing_step(*old(self), app_key@, app_id@, *desired, current);
                if step is Some && old(self).journal.mode == Mode::Apply
                    && !pricing.replace_future_schedule {
                    &&& final(self).api == old(self).api
                    &&& final(self).context == old(self).context
                    &&& final(self).journal.mode == old(self).journal.mode
                    &&& final(self).journal.recorded() == old(self).journal.recorded().push(step->0.change)
                    &&& result matches Err(error)
                    &&& error@ == pricing_message(app_key@)
                } else {
                    result matches Ok(requests) && ran(*old(self), *final(self), step, requests@)
                }
            }),
    {
        if let Some(found) = current {
            if found.matches(desired) {
                return Ok(no_requests());
            }
        }
        let request = self.api.create_app_price_schedule(app_id, desired);
        let requests = self.journal.step(
            ChangeKind::Replace,
            cat3("app.", app_key, ".pricing"),
            "replace app price schedule",
            request,
        );
        if self.journal.mode == Mode::Apply && !pricing.replace_future_schedule {
            return Err(
                failure(
                    cat3(
                        "app ",
                        app_key,
                        " pricing differs; set pricing.replace_future_schedule=true to replace the ASC price schedule",
                    ),
                ),
            );
        }
        Ok(requests)
    }

    /// Creates a page, or changes what differs.
    pub fn reconcile_custom_product_page(
        &mut self,
        app_key: &str,
        app_id: &str,
        page_key: &str,
        desired: &ResolvedCustomProductPage,
        existing: Option<&RemoteResource>,
    ) -> (requests: Vec<ApiRequest>)
        ensures
            ran(
                *old(self),
                *final(self),
                page_step(*old(self), app_key@, app_id@, page_key@, *desired, existing),
                requests@,
            ),
    {
        match existing {
            Some(found) => {
                let mut attrs = Members::new();
                compare_text(
                    &mut attrs,
                    "name",
                    Some(desired.name.as_str()),
                    found.attr_str("name"),
                );
                compare_optional_bool_value(
                    &mut attrs,
                    "visible",
                    desired.visible,
                    found.attr_bool("visible"),
                );
                if attrs.is_empty() {
                    return no_requests();
                }
                let request = self.api.update_custom_product_page(found.id.as_str(), attrs);
                self.journal.step(
                    ChangeKind::Update,
                    page_name(app_key, page_key),
                    "ensure custom product page attributes match config",
                    request,
                )
            },
            None => {
                let request = self.api.create_custom_product_page(app_id, desired.name.as_str());
                self.journal.step(
                    ChangeKind::Create,
                    page_name(app_key, page_key),
                    "create custom product page",
                    request,
                )
            },
        }
    }

    /// Tells what a page that is not there yet will need.
    pub fn record_custom_product_page_children(
        &mut self,
        app_key: &str,
        page_key: &str,
        localizations: &OrderedMap<ResolvedCustomProductPageLocalization>,
        media_by_locale: &OrderedMap<AppMediaLocalizationSpec>,
    )
        ensures
            ran_all(
                *old(self),
                *final(self),
                page_children(app_key@, page_key@, *localizations, *media_by_locale),
                seq![],
            ),
    {
        let ghost start = self.journal;
        let name = page_name(app_key, page_key);
        let ghost version = told(
            ChangeKind::Create,
            page_version_subject(app_key@, page_key@),
            "create editable custom product page version"@,
        );
        proof {
            lemma_nothing_followed(start);
        }
        tell(
            &mut self.journal,
            ChangeKind::Create,
            cat(name.as_str(), ".version"),
            "create editable custom product page version",
        );
        proof {
            assert(Seq::<StepView>::empty().push(version) =~= seq![version]);
        }
        let ghost first = self.journal;
        tell_each(
            &mut self.journal,
            ChangeKind::Create,
            cat(name.as_str(), ".localizations.").as_str(),
            localizations,
            "create custom product page localization",
        );
        let ghost second = self.journal;
        tell_each(
            &mut self.journal,
            ChangeKind::Replace,
            cat(name.as_str(), ".media.").as_str(),
            media_by_locale,
            "replace custom product page media",
        );
        proof {
            let locales = told_each(
                ChangeKind::Create,
                page_subject(app_key@, page_key@) + ".localizations."@,
                localizations.entries(),
                "create custom product page localization"@,
                localizations.entries().len(),
            );
            let media = told_each(
                ChangeKind::Replace,
                page_subject(app_key@, page_key@) + ".media."@,
                media_by_locale.entries(),
                "replace custom product page media"@,
                media_by_locale.entries().len(),
            );
            let none = Seq::<ApiRequest>::empty();
            assert(none + none =~= none);
            lemma_more(start, first, second, seq![version], locales, none, none);
            lemma_more(start, second, self.journal, seq![version] + locales, media, none, none);
        }
    }

    /// Creates a page version where none can be changed.
    pub fn ensure_custom_product_page_version(
        &mut self,
        app_key: &str,
        page_key: &str,
        page_id: &str,
        deep_link: Option<&str>,
        versions: &Vec<RemoteResource>,
    ) -> (requests: Vec<ApiRequest>)
        ensures
            ran(
                *old(self),
                *final(self),
                page_version_step(
                    *old(self),
                    app_key@,
                    page_key@,
                    page_id@,
                    given(deep_link),
                    versions@,
                ),
                requests@,
            ),
    {
        if found_page_version(versions).is_some() {
            return no_requests();
        }
        let request = self.api.create_custom_product_page_version(page_id, deep_link);
        self.journal.step(
            ChangeKind::Create,
            page_name(app_key, page_key).concat(".version"),
            "create editable custom product page version",
            request,
        )
    }

    /// Changes the deep link of a page version where it differs.
    pub fn reconcile_page_deep_link(
        &mut self,
        app_key: &str,
        page_key: &str,
        version: &RemoteResource,
        deep_link: Option<&str>,
    ) -> (requests: Vec<ApiRequest>)
        ensures
            ran(
                *old(self),
                *final(self),
                deep_link_step(*old(self), app_key@, page_key@, *version, given(deep_link)),
                requests@,
            ),
    {
        let there = match (deep_link, version.attr_str("deepLink")) {
            (Some(wanted), Some(found)) => same(wanted, found),
            (None, None) => true,
            _ => false,
        };
        if version.is_planned() || there {
            return no_requests();
        }
        let request = self.api.update_custom_product_page_version(version.id.as_str(), deep_link);
        self.journal.step(
            ChangeKind::Update,
            page_name(app_key, page_key).concat(".version"),
            "ensure custom product page deep link matches config",
            request,
        )
    }

    /// Creates a page localization, or changes it where it differs.
    pub fn reconcile_custom_product_page_localization(
        &mut self,
        app_key: &str,
        page_key: &str,
        version_id: &str,
        locale: &str,
        desired: &ResolvedCustomProductPageLocalization,
        existing: Option<&RemoteResource>,
    ) -> (requests: Vec<ApiRequest>)
        ensures
            ran(
                *old(self),
                *final(self),
                page_localization_step(
                    *old(self),
                    app_key@,
                    page_key@,
                    version_id@,
                    locale@,
                    *desired,
                    existing,
                ),
                requests@,
            ),
    {
        let subject = page_name(app_key, page_key).concat(".localizations.").concat(locale);
        match existing {
            Some(found) => {
                if optional_matches(
                    as_deref(&desired.promotional_text),
                    found.attr_str("promotionalText"),
                ) {
                    return no_requests();
                }
                let request = self.api.update_custom_product_page_localization(
                    found.id.as_str(),
                    as_deref(&desired.promotional_text),
                );
                self.journal.step(
                    ChangeKind::Update,
                    subject,
                    "ensure custom product page localization matches config",
                    request,
                )
            },
            None => {
                let request = self.api.create_custom_product_page_localization(
                    version_id,
                    locale,
                    as_deref(&desired.promotional_text),
                );
                self.journal.step(
                    ChangeKind::Create,
                    subject,
                    "ensure custom product page localization matches config",
                    request,
                )
            },
        }
    }

    /// Attaches the search keywords that a page localization lacks.
    pub fn reconcile_app_keywords(
        &mut self,
        app_key: &str,
        subject: &str,
        localization_id: &str,
        desired: &Vec<String>,
        current: &Vec<String>,
    ) -> (requests: Vec<ApiRequest>)
        ensures
            ({
                let missing = missing_from(texts(desired@), texts(current@));
                ran(
                    *old(self),
                    *final(self),
                    if missing.len() == 0 {
                        None
                    } else {
                        Some(
                            one_step(
                                ChangeKind::Update,
                                "app."@ + app_key@ + "."@ + subject@ + ".search_keyword_ids"@,
                                "attach missing app keyword relationships"@,
                                old(self).api.attached_keywords(localization_id@, missing),
                            ),
                        )
                    },
                    requests@,
                )
            }),
    {
        let missing = missing_ids(desired, current);
        proof {
            assert(texts(missing@).len() == missing@.len());
        }
        if missing.len() == 0 {
            return no_requests();
        }
        let request = self.api.add_app_keyword_relationships(localization_id, &missing);
        self.journal.step(
            ChangeKind::Update,
            cat3("app.", app_key, ".").concat(subject).concat(".search_keyword_ids"),
            "attach missing app keyword relationships",
            request,
        )
    }

    /// Replaces a screenshot set of a page where it differs: the old set is deleted and a new one
    /// created; the files are sent by the caller, in their order.
    pub fn reconcile_page_screenshots(
        &mut self,
        app_key: &str,
        page_key: &str,
        locale: &str,
        localization_id: &str,
        set: MediaScreenshotSet,
        existing: Option<&MediaSet>,
        current: &Vec<MediaAsset>,
        files: &Vec<LocalFile>,
    ) -> (result: Result<(bool, Vec<ApiRequest>), Error>)
        ensures
            match uploaded(true, current@, files@) {
                Err(message) => *final(self) == *old(self) && (result matches Err(error) && error@
                    == message),
                Ok(there) => result matches Ok(found) && found.0 == (!there
                    && old(self).journal.mode == Mode::Apply) && ran(
                    *old(self),
                    *final(self),
                    if there {
                        None
                    } else {
                        Some(
                            replaced_set(
                                page_subject(app_key@, page_key@) + ".media."@ + locale@
                                    + ".screenshots."@ + set.asc_display_type_of(),
                                "replace custom product page screenshot set"@,
                                match existing {
                                    Some(old_set) => Some(
                                        old(self).api.delete_view(
                                            "/appScreenshotSets/"@ + old_set.id@,
                                        ),
                                    ),
                                    None => None,
                                },
                                old(self).api.new_related_screenshot_set(
                                    "appCustomProductPageLocalization"@,
                                    "appCustomProductPageLocalizations"@,
                                    localization_id@,
                                    set.asc_display_type_of(),
                                ),
                            ),
                        )
                    },
                    found.1@,
                ),
            },
    {
        match uploaded_assets_match_ordered(current, files) {
            Err(error) => Err(error),
            Ok(there) => {
                if there {
                    return Ok((false, no_requests()));
                }
                let display_type = set.asc_display_type();
                let removal = match existing {
                    Some(old_set) => Some(self.api.delete_screenshot_set(old_set.id.as_str())),
                    None => None,
                };
                let creation = self.api.create_screenshot_set_for_relationship(
                    "appCustomProductPageLocalization",
                    "appCustomProductPageLocalizations",
                    localization_id,
                    display_type,
                );
                let todo = replacement(removal, creation);
                let send = self.journal.mode == Mode::Apply;
                let requests = self.journal.steps(
                    ChangeKind::Replace,
                    page_name(app_key, page_key).concat(".media.").concat(locale).concat(
                        ".screenshots.",
                    ).concat(display_type),
                    "replace custom product page screenshot set",
                    todo,
                );
                Ok((send, requests))
            },
        }
    }

    /// Replaces a preview set of a page where it differs: the old set is deleted and a new one
    /// created; the files are sent by the caller, in their order.
    pub fn reconcile_page_previews(
        &mut self,
        app_key: &str,
        page_key: &str,
        locale: &str,
        localization_id: &str,
        set: MediaPreviewSet,
        existing: Option<&MediaSet>,
        current: &Vec<MediaAsset>,
        files: &Vec<LocalFile>,
    ) -> (result: Result<(bool, Vec<ApiRequest>), Error>)
        ensures
            match uploaded(true, current@, files@) {
                Err(message) => *final(self) == *old(self) && (result matches Err(error) && error@
                    == message),
                Ok(there) => result matches Ok(found) && found.0 == (!there
                    && old(self).journal.mode == Mode::Apply) && ran(
                    *old(self),
                    *final(self),
                    if there {
                        None
                    } else {
                        Some(
                            replaced_set(
                                page_subject(app_key@, page_key@) + ".media."@ + locale@
                                    + ".app_previews."@ + set.asc_preview_type_of(),
                                "replace custom product page app preview set"@,
                                match existing {
                                    Some(old_set) => Some(
                                        old(self).api.delete_view(
                                            "/appPreviewSets/"@ + old_set.id@,
                                        ),
                                    ),
                                    None => None,
                                },
                                old(self).api.new_related_preview_set(
                                    "appCustomProductPageLocalization"@,
                                    "appCustomProductPageLocalizations"@,
                                    localization_id@,
                                    set.asc_preview_type_of(),
                                ),
                            ),
                        )
                    },
                    found.1@,
                ),
            },
    {
        match uploaded_assets_match_ordered(current, files) {
            Err(error) => Err(error),
            Ok(there) => {
                if there {
                    return Ok((false, no_requests()));
                }
                let preview_type = set.asc_preview_type();
                let removal = match existing {
                    Some(old_set) => Some(self.api.delete_preview_set(old_set.id.as_str())),
                    None => None,
                };
                let creation = self.api.create_preview_set_for_relationship(
                    "appCustomProductPageLocalization",
                    "appCustomProductPageLocalizations",
                    localization_id,
                    preview_type,
                );
                let todo = replacement(removal, creation);
                let send = self.journal.mode == Mode::Apply;
                let requests = self.journal.steps(
                    ChangeKind::Replace,
                    page_name(app_key, page_key).concat(".media.").concat(locale).concat(
                        ".app_previews.",
                    ).concat(preview_type),
                    "replace custom product page app preview set",
                    todo,
                );
                Ok((send, requests))
            },
        }
    }

    /// Reminds of the privacy answers, which the API does not take.
    pub fn reconcile_privacy_checklist(&mut self, app_key: &str, privacy: &AppPrivacySpec)
        ensures
            ran(
                *old(self),
                *final(self),
                if privacy.data_types@.len() == 0 && privacy.uses_tracking is None
                    && privacy.tracking_domains@.len() == 0 {
                    None
                } else {
                    Some(
                        told(
                            ChangeKind::Update,
                            "app."@ + app_key@ + ".privacy"@,
                            "App Privacy nutrition label is recorded as a typed checklist; verify/update it manually in App Store Connect"@,
                        ),
                    )
                },
                seq![],
            ),
    {
        if privacy.data_types.len() == 0 && privacy.uses_tracking.is_none()
            && privacy.tracking_domains.len() == 0 {
            return;
        }
        tell(
            &mut self.journal,
            ChangeKind::Update,
            cat3("app.", app_key, ".privacy"),
            "App Privacy nutrition label is recorded as a typed checklist; verify/update it manually in App Store Connect",
        );
    }
}

} // verus!
