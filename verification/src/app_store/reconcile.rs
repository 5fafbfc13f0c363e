//! Which changes bring an app's store pages up to date.
//!
//! Each function takes what the API told, writes down the change that is due, if any, and hands
//! out the requests that make it.

use vstd::prelude::*;
use vstd::string::*;
use crate::api::{ApiRequest, RequestView};
use crate::app_store::rating::{age_rating_matches, category_matches, rating_attrs};
use crate::app_store::requests::{no_members, with_text, AppStoreApi, MembersView};
use crate::app_store::resolve::{
    ResolveContext, ResolvedAppInfoLocalization, ResolvedReview, ResolvedVersionLocalization,
};
use crate::app_store::upload::{
    uploaded, uploaded_assets_match, uploaded_assets_match_ordered, LocalFile,
};
use crate::app_store::{
    AgeRatingDeclaration, AppInfo, AppInfoLocalization, AppStoreReviewDetail, AppStoreVersion,
    AppStoreVersionLocalization, Build, MediaAsset, MediaSet,
};
use crate::asc::App;
use crate::config::{
    AppCategoriesSpec, AppMediaLocalizationSpec, AppPlatform, AppSharedSpec, AppSpec,
    AppVersionLocalizationSource, AppVersionSpec, Config, MediaPathList, MediaPreviewSet,
    MediaScreenshotSet, MediaScreenshotSource, StringSource,
};
use crate::json::{all_members, text, Json, JsonView, Members};
use crate::ordered::OrderedMap;
use crate::ranked::RankedMap;
use crate::sync::{
    followed, followed_all, no_requests, request_views, ChangeKind, ChangeView, Journal, Mode, StepView,
};
use crate::text::{
    as_deref, cat, cat3, earlier, failure, given, owned, same, Error,
};

verus! {

/// A run over the store side of the account.
#[derive(Debug)]
pub struct AppStoreSync {
    pub api: AppStoreApi,
    pub context: ResolveContext,
    pub journal: Journal,
}

/// How far a version of the account is brought up to date.
#[derive(Debug)]
pub enum PlatformCourse {
    /// The version is open: its attributes, build, localizations, review details and media.
    Whole,
    /// The version is closed: only its promotional texts, and this line for the user.
    PromotionalTexts(String),
}

/// What is handed out after a decision: requests to send, and a line to tell the user.
#[derive(Debug)]
pub struct Outcome {
    pub requests: Vec<ApiRequest>,
    pub notice: Option<String>,
}

/// How a run follows from what there was to do. Everything but the journal stays.
pub open spec fn ran(
    before: AppStoreSync,
    after: AppStoreSync,
    step: Option<StepView>,
    requests: Seq<ApiRequest>,
) -> bool {
    &&& after.api == before.api
    &&& after.context == before.context
    &&& followed(before.journal, after.journal, step, requests)
}

/// How a run follows from several things to do.
pub open spec fn ran_all(
    before: AppStoreSync,
    after: AppStoreSync,
    steps: Seq<StepView>,
    requests: Seq<ApiRequest>,
) -> bool {
    &&& after.api == before.api
    &&& after.context == before.context
    &&& followed_all(before.journal, after.journal, steps, requests)
}

/// The same, with the line for the user.
pub open spec fn ended(
    before: AppStoreSync,
    after: AppStoreSync,
    step: Option<StepView>,
    notice: Option<Seq<char>>,
    outcome: Outcome,
) -> bool {
    &&& ran(before, after, step, outcome.requests@)
    &&& owned(outcome.notice) == notice
}

/// A change that one request makes.
pub open spec fn one_step(
    kind: ChangeKind,
    subject: Seq<char>,
    detail: Seq<char>,
    request: RequestView,
) -> StepView {
    StepView { change: ChangeView { kind, subject, detail }, requests: seq![request] }
}

fn silent(requests: Vec<ApiRequest>) -> (outcome: Outcome)
    ensures
        outcome.requests == requests,
        outcome.notice is None,
{
    Outcome { requests, notice: None }
}

fn quiet() -> (outcome: Outcome)
    ensures
        outcome.requests@.len() == 0,
        outcome.notice is None,
{
    Outcome { requests: no_requests(), notice: None }
}

fn notice(line: String) -> (outcome: Outcome)
    ensures
        outcome.requests@.len() == 0,
        owned(outcome.notice) == Some(line@),
{
    Outcome { requests: no_requests(), notice: Some(line) }
}

/// Attributes with one more text, where it is wanted and not there.
pub open spec fn compared(
    attrs: MembersView,
    key: Seq<char>,
    desired: Option<Seq<char>>,
    current: Option<Seq<char>>,
) -> MembersView {
    if desired is Some && current != desired {
        with_text(attrs, key, desired)
    } else {
        attrs
    }
}

/// Adds a text where it is wanted and not there.
pub fn compare_text(attrs: &mut Members, key: &str, desired: Option<&str>, current: Option<&str>)
    ensures
        final(attrs)@ == compared(old(attrs)@, key@, given(desired), given(current)),
{
    if let Some(wanted) = desired {
        let there = match current {
            Some(found) => same(found, wanted),
            None => false,
        };
        if !there {
            attrs.put(key, text(wanted));
        }
    }
}

/// Adds a text of the configuration where it is wanted and not there.
pub fn compare_string_attr(
    attrs: &mut Members,
    key: &str,
    desired: &Option<StringSource>,
    current: Option<&str>,
    context: &ResolveContext,
) -> (result: Result<(), Error>)
    ensures
        match context.lacks(*desired) {
            Some(message) => final(attrs)@ == old(attrs)@ && (result matches Err(error) && error@
                == message),
            None => result is Ok && final(attrs)@ == compared(
                old(attrs)@,
                key@,
                context.optional_text(*desired),
                given(current),
            ),
        },
{
    match context.resolve_optional_string(desired) {
        Ok(value) => {
            compare_text(attrs, key, as_deref(&value), current);
            Ok(())
        },
        Err(error) => Err(error),
    }
}

/// The message that is due of shared attributes.
pub open spec fn shared_lacks(context: ResolveContext, shared: AppSharedSpec) -> Option<Seq<char>> {
    earlier(
        context.lacks(shared.primary_locale),
        earlier(
            context.lacks(shared.accessibility_url),
            earlier(
                context.lacks(shared.subscription_status_url),
                context.lacks(shared.subscription_status_url_for_sandbox),
            ),
        ),
    )
}

/// The shared attributes that are not as the configuration wants them.
pub open spec fn shared_attrs(context: ResolveContext, app: App, shared: AppSharedSpec) ->
    MembersView {
    let found = app.attributes;
    let a = compared(
        no_members(),
        "primaryLocale"@,
        context.optional_text(shared.primary_locale),
        Some(found.primary_locale@),
    );
    let b = compared(
        a,
        "accessibilityUrl"@,
        context.optional_text(shared.accessibility_url),
        owned(found.accessibility_url),
    );
    let c = compared(
        b,
        "contentRightsDeclaration"@,
        match shared.content_rights_declaration {
            Some(value) => Some(value.asc_value_of()),
            None => None,
        },
        owned(found.content_rights_declaration),
    );
    let d = compared(
        c,
        "subscriptionStatusUrl"@,
        context.optional_text(shared.subscription_status_url),
        owned(found.subscription_status_url),
    );
    let e = compared(
        d,
        "subscriptionStatusUrlForSandbox"@,
        context.optional_text(shared.subscription_status_url_for_sandbox),
        owned(found.subscription_status_url_for_sandbox),
    );
    match shared.streamlined_purchasing_enabled {
        Some(value) => if found.streamlined_purchasing_enabled != Some(value) {
            e.insert("streamlinedPurchasingEnabled"@, JsonView::Bool(value))
        } else {
            e
        },
        None => e,
    }
}

fn shared_members(context: &ResolveContext, app: &App, shared: &AppSharedSpec) -> (result: Result<
    Members,
    Error,
>)
    ensures
        match shared_lacks(*context, *shared) {
            Some(message) => result matches Err(error) && error@ == message,
            None => result matches Ok(attrs) && attrs@ == shared_attrs(*context, *app, *shared),
        },
{
    let found = &app.attributes;
    let mut attrs = Members::new();
    if let Err(error) = compare_string_attr(
        &mut attrs,
        "primaryLocale",
        &shared.primary_locale,
        Some(found.primary_locale.as_str()),
        context,
    ) {
        return Err(error);
    }
    if let Err(error) = compare_string_attr(
        &mut attrs,
        "accessibilityUrl",
        &shared.accessibility_url,
        as_deref(&found.accessibility_url),
        context,
    ) {
        return Err(error);
    }
    let declaration = match shared.content_rights_declaration {
        Some(value) => Some(value.asc_value()),
        None => None,
    };
    compare_text(
        &mut attrs,
        "contentRightsDeclaration",
        declaration,
        as_deref(&found.content_rights_declaration),
    );
    if let Err(error) = compare_string_attr(
        &mut attrs,
        "subscriptionStatusUrl",
        &shared.subscription_status_url,
        as_deref(&found.subscription_status_url),
        context,
    ) {
        return Err(error);
    }
    if let Err(error) = compare_string_attr(
        &mut attrs,
        "subscriptionStatusUrlForSandbox",
        &shared.subscription_status_url_for_sandbox,
        as_deref(&found.subscription_status_url_for_sandbox),
        context,
    ) {
        return Err(error);
    }
    if let Some(value) = shared.streamlined_purchasing_enabled {
        let there = match found.streamlined_purchasing_enabled {
            Some(current) => current == value,
            None => false,
        };
        if !there {
            attrs.put("streamlinedPurchasingEnabled", Json::Bool(value));
        }
    }
    Ok(attrs)
}

/// What there is to do for the shared attributes.
pub open spec fn shared_step(
    sync: AppStoreSync,
    app_key: Seq<char>,
    app: App,
    shared: AppSharedSpec,
) -> Option<StepView> {
    let attrs = shared_attrs(sync.context, app, shared);
    if attrs == no_members() {
        None
    } else {
        Some(
            one_step(
                ChangeKind::Update,
                "app."@ + app_key + ".shared"@,
                "ensure app record attributes match config"@,
                sync.api.patch_view("/apps"@, "apps"@, app.id@, attrs, no_members()),
            ),
        )
    }
}

/// A text of the account after attributes were sent: the sent one, where one was sent under its key.
pub open spec fn text_after(
    attrs: MembersView,
    key: Seq<char>,
    before: Option<Seq<char>>,
) -> Option<Seq<char>> {
    if attrs.contains_key(key) {
        match attrs[key] {
            JsonView::Text(value) => Some(value),
            _ => before,
        }
    } else {
        before
    }
}

/// An app of the account is another one after attributes were sent.
pub open spec fn app_after(attrs: MembersView, before: App, after: App) -> bool {
    let a = before.attributes;
    let b = after.attributes;
    &&& Some(b.primary_locale@) == text_after(attrs, "primaryLocale"@, Some(a.primary_locale@))
    &&& owned(b.accessibility_url) == text_after(
        attrs,
        "accessibilityUrl"@,
        owned(a.accessibility_url),
    )
    &&& owned(b.content_rights_declaration) == text_after(
        attrs,
        "contentRightsDeclaration"@,
        owned(a.content_rights_declaration),
    )
    &&& owned(b.subscription_status_url) == text_after(
        attrs,
        "subscriptionStatusUrl"@,
        owned(a.subscription_status_url),
    )
    &&& owned(b.subscription_status_url_for_sandbox) == text_after(
        attrs,
        "subscriptionStatusUrlForSandbox"@,
        owned(a.subscription_status_url_for_sandbox),
    )
    &&& b.streamlined_purchasing_enabled == (if attrs.contains_key(
        "streamlinedPurchasingEnabled"@,
    ) && attrs["streamlinedPurchasingEnabled"@] is Bool {
        Some(attrs["streamlinedPurchasingEnabled"@]->Bool_0)
    } else {
        a.streamlined_purchasing_enabled
    })
}

/// Once the account has taken the shared attributes that were sent, there is nothing left to send.
pub proof fn law_shared_attributes_settle(
    context: ResolveContext,
    before: App,
    after: App,
    shared: AppSharedSpec,
)
    requires
        app_after(shared_attrs(context, before, shared), before, after),
    ensures
        shared_attrs(context, after, shared) == no_members(),
{
    reveal_strlit("primaryLocale");
    reveal_strlit("accessibilityUrl");
    reveal_strlit("contentRightsDeclaration");
    reveal_strlit("subscriptionStatusUrl");
    reveal_strlit("subscriptionStatusUrlForSandbox");
    reveal_strlit("streamlinedPurchasingEnabled");
    assert("primaryLocale"@.len() == 13);
    assert("accessibilityUrl"@.len() == 16);
    assert("contentRightsDeclaration"@.len() == 24);
    assert("subscriptionStatusUrl"@.len() == 21);
    assert("subscriptionStatusUrlForSandbox"@.len() == 31);
    assert("streamlinedPurchasingEnabled"@.len() == 28);
}

/// What the state of an app info is called in messages.
pub open spec fn state_name(info: AppInfo) -> Seq<char> {
    match info.attributes.state {
        Some(state) => state@,
        None => "unknown"@,
    }
}

fn state_text(info: &AppInfo) -> (name: &str)
    ensures
        name@ == state_name(*info),
{
    match &info.attributes.state {
        Some(state) => state.as_str(),
        None => "unknown",
    }
}

/// The categories of an app info in the account.
#[derive(Debug)]
pub struct CategoryIds {
    pub primary: Option<String>,
    pub primary_subcategory_one: Option<String>,
    pub primary_subcategory_two: Option<String>,
    pub secondary: Option<String>,
    pub secondary_subcategory_one: Option<String>,
    pub secondary_subcategory_two: Option<String>,
}

/// A category is the one in the account, or none is wanted.
pub open spec fn category_is(desired: Option<String>, current: Option<String>) -> bool {
    desired is Some ==> owned(current) == owned(desired)
}

/// Every category that is wanted is the one in the account.
pub open spec fn categories_match(desired: AppCategoriesSpec, current: CategoryIds) -> bool {
    &&& category_is(desired.primary, current.primary)
    &&& category_is(desired.primary_subcategory_one, current.primary_subcategory_one)
    &&& category_is(desired.primary_subcategory_two, current.primary_subcategory_two)
    &&& category_is(desired.secondary, current.secondary)
    &&& category_is(desired.secondary_subcategory_one, current.secondary_subcategory_one)
    &&& category_is(desired.secondary_subcategory_two, current.secondary_subcategory_two)
}

/// Whether every category that is wanted is the one in the account.
pub fn app_info_categories_match(desired: &AppCategoriesSpec, current: CategoryIds) -> (result:
    bool)
    ensures
        result == categories_match(*desired, current),
{
    category_matches(as_deref(&desired.primary), current.primary) && category_matches(
        as_deref(&desired.primary_subcategory_one),
        current.primary_subcategory_one,
    ) && category_matches(
        as_deref(&desired.primary_subcategory_two),
        current.primary_subcategory_two,
    ) && category_matches(as_deref(&desired.secondary), current.secondary) && category_matches(
        as_deref(&desired.secondary_subcategory_one),
        current.secondary_subcategory_one,
    ) && category_matches(
        as_deref(&desired.secondary_subcategory_two),
        current.secondary_subcategory_two,
    )
}

/// The last localization of a locale.
pub open spec fn info_of_locale(
    current: Seq<AppInfoLocalization>,
    locale: Seq<char>,
    n: nat,
) -> Option<AppInfoLocalization>
    decreases n,
{
    if n == 0 || n > current.len() {
        None
    } else if current[n - 1].attributes.locale@ == locale {
        Some(current[n - 1])
    } else {
        info_of_locale(current, locale, (n - 1) as nat)
    }
}

fn find_info_locale<'a>(current: &'a Vec<AppInfoLocalization>, locale: &str) -> (found: Option<
    &'a AppInfoLocalization,
>)
    ensures
        match info_of_locale(current@, locale@, current@.len()) {
            Some(localization) => found == Some(&localization),
            None => found is None,
        },
{
    let mut n: usize = current.len();
    while n > 0
        invariant
            n <= current.len(),
            info_of_locale(current@, locale@, current@.len()) == info_of_locale(
                current@,
                locale@,
                n as nat,
            ),
        decreases n,
    {
        if same(current[n - 1].attributes.locale.as_str(), locale) {
            return Some(&current[n - 1]);
        }
        n -= 1;
    }
    None
}

/// The last localization of a locale.
pub open spec fn version_of_locale(
    current: Seq<AppStoreVersionLocalization>,
    locale: Seq<char>,
    n: nat,
) -> Option<AppStoreVersionLocalization>
    decreases n,
{
    if n == 0 || n > current.len() {
        None
    } else if current[n - 1].attributes.locale@ == locale {
        Some(current[n - 1])
    } else {
        version_of_locale(current, locale, (n - 1) as nat)
    }
}

/// The last localization of a locale.
pub fn find_version_locale<'a>(
    current: &'a Vec<AppStoreVersionLocalization>,
    locale: &str,
) -> (found: Option<&'a AppStoreVersionLocalization>)
    ensures
        match version_of_locale(current@, locale@, current@.len()) {
            Some(localization) => found == Some(&localization),
            None => found is None,
        },
{
    let mut n: usize = current.len();
    while n > 0
        invariant
            n <= current.len(),
            version_of_locale(current@, locale@, current@.len()) == version_of_locale(
                current@,
                locale@,
                n as nat,
            ),
        decreases n,
    {
        if same(current[n - 1].attributes.locale.as_str(), locale) {
            return Some(&current[n - 1]);
        }
        n -= 1;
    }
    None
}

/// Changes an entry that is there, creates one that is not.
pub open spec fn update_or_create(there: bool) -> ChangeKind {
    if there {
        ChangeKind::Update
    } else {
        ChangeKind::Create
    }
}

/// `app.<app>.platform.<platform>`.
pub open spec fn platform_subject(app_key: Seq<char>, platform: AppPlatform) -> Seq<char> {
    "app."@ + app_key + ".platform."@ + platform.label_of()
}

fn platform_name(app_key: &str, platform: AppPlatform) -> (subject: String)
    ensures
        subject@ == platform_subject(app_key@, platform),
{
    cat3("app.", app_key, ".platform.").concat(platform.label())
}

/// What there is to do for the localization of a version, if the account's one differs.
pub open spec fn version_localization_step(
    api: AppStoreApi,
    app_key: Seq<char>,
    platform: AppPlatform,
    version_id: Seq<char>,
    locale: Seq<char>,
    desired: ResolvedVersionLocalization,
    existing: Option<AppStoreVersionLocalization>,
) -> Option<StepView> {
    if existing matches Some(found) && desired.same_in(found) {
        None
    } else {
        Some(
            one_step(
                update_or_create(existing is Some),
                platform_subject(app_key, platform) + ".localizations."@ + locale,
                "ensure version localization matches config"@,
                match existing {
                    Some(found) => api.changed_version_localization(found.id@, desired),
                    None => api.new_version_localization(version_id, locale, desired),
                },
            ),
        )
    }
}

/// The attributes of a version that are not as the configuration wants them.
pub open spec fn version_attrs(
    context: ResolveContext,
    current: AppStoreVersion,
    spec: AppVersionSpec,
) -> MembersView {
    let found = current.attributes;
    let a = compared(
        no_members(),
        "copyright"@,
        context.optional_text(spec.copyright),
        owned(found.copyright),
    );
    match spec.release {
        Some(release) => compared(
            compared(
                a,
                "releaseType"@,
                match release.kind {
                    Some(kind) => Some(kind.asc_value_of()),
                    None => None,
                },
                owned(found.release_type),
            ),
            "earliestReleaseDate"@,
            owned(release.earliest_release_date),
            owned(found.earliest_release_date),
        ),
        None => a,
    }
}

/// What there is to do for the attributes of a version.
pub open spec fn version_step(
    sync: AppStoreSync,
    app_key: Seq<char>,
    platform: AppPlatform,
    current: AppStoreVersion,
    spec: AppVersionSpec,
) -> Option<StepView> {
    let attrs = version_attrs(sync.context, current, spec);
    if attrs == no_members() {
        None
    } else {
        Some(
            one_step(
                ChangeKind::Update,
                platform_subject(app_key, platform) + ".version"@,
                "ensure version attributes match config"@,
                sync.api.changed_version(current.id@, attrs, None),
            ),
        )
    }
}

/// What there is to do for the build of a version.
pub open spec fn build_step(
    sync: AppStoreSync,
    app_key: Seq<char>,
    platform: AppPlatform,
    record: AppStoreVersion,
    build_number: Seq<char>,
    build: Build,
) -> Option<StepView> {
    if record.build_id() == Some(build.id@) {
        None
    } else {
        Some(
            one_step(
                ChangeKind::Update,
                platform_subject(app_key, platform) + ".version.build"@,
                "attach build "@ + build_number,
                sync.api.changed_version(record.id@, no_members(), Some(build.id@)),
            ),
        )
    }
}

/// What there is to do for the categories of an app.
pub open spec fn categories_step(
    sync: AppStoreSync,
    app_key: Seq<char>,
    info: AppInfo,
    categories: AppCategoriesSpec,
    current: CategoryIds,
) -> Option<StepView> {
    if categories_match(categories, current) || !info.editable() {
        None
    } else {
        Some(
            one_step(
                ChangeKind::Update,
                "app."@ + app_key + ".store_info.categories"@,
                "ensure App Store categories match config"@,
                sync.api.categories_view(info.id@, categories),
            ),
        )
    }
}

/// What there is to do for the age rating of an app.
pub open spec fn rating_step(
    sync: AppStoreSync,
    app_key: Seq<char>,
    info: AppInfo,
    declaration: AgeRatingDeclaration,
    answers: OrderedMap<Json>,
) -> Option<StepView> {
    if rating_attrs(answers).submap_of(all_members(declaration.attributes)) || !info.editable() {
        None
    } else {
        Some(
            one_step(
                ChangeKind::Update,
                "app."@ + app_key + ".store_info.age_rating"@,
                "ensure age rating declaration matches config"@,
                sync.api.age_rating_view(declaration.id@, answers),
            ),
        )
    }
}

/// What there is to do for the localization of an app info, if the account's one differs.
pub open spec fn info_localization_step(
    sync: AppStoreSync,
    app_key: Seq<char>,
    app_info_id: Seq<char>,
    editable: bool,
    locale: Seq<char>,
    desired: ResolvedAppInfoLocalization,
    existing: Option<AppInfoLocalization>,
) -> Option<StepView> {
    if existing matches Some(found) && desired.same_in(found) {
        None
    } else if !editable {
        None
    } else {
        Some(
            one_step(
                update_or_create(existing is Some),
                "app."@ + app_key + ".store_info.localizations."@ + locale,
                "ensure app info localization matches config"@,
                match existing {
                    Some(found) => sync.api.changed_app_info_localization(found.id@, desired),
                    None => sync.api.new_app_info_localization(app_info_id, locale, desired),
                },
            ),
        )
    }
}

/// What there is to do for the localization of a version. Of a version that cannot be changed only
/// the promotional text can.
pub open spec fn open_localization_step(
    api: AppStoreApi,
    app_key: Seq<char>,
    platform: AppPlatform,
    version_id: Seq<char>,
    locale: Seq<char>,
    desired: ResolvedVersionLocalization,
    full_editable: bool,
    existing: Option<AppStoreVersionLocalization>,
) -> Option<StepView> {
    let part = ResolvedVersionLocalization {
        promotional_text: desired.promotional_text,
        description: None,
        keywords: None,
        marketing_url: None,
        support_url: None,
        whats_new: None,
    };
    if full_editable {
        version_localization_step(api, app_key, platform, version_id, locale, desired, existing)
    } else if part.nothing() {
        None
    } else {
        version_localization_step(api, app_key, platform, version_id, locale, part, existing)
    }
}

/// What there is to do for the review details of a version.
pub open spec fn review_step(
    sync: AppStoreSync,
    app_key: Seq<char>,
    platform: AppPlatform,
    version_id: Seq<char>,
    desired: ResolvedReview,
    current: Option<AppStoreReviewDetail>,
) -> Option<StepView> {
    if current matches Some(found) && desired.same_in(found) {
        None
    } else {
        Some(
            one_step(
                update_or_create(current is Some),
                platform_subject(app_key, platform) + ".review"@,
                "ensure review details match config"@,
                sync.api.review_detail_view(
                    version_id,
                    match current {
                        Some(found) => Some(found.id@),
                        None => None,
                    },
                    desired,
                ),
            ),
        )
    }
}

impl AppStoreSync {
    /// Brings the attributes of an app record up to date.
    pub fn reconcile_shared(
        &mut self,
        app_key: &str,
        app_record: &App,
        shared: &AppSharedSpec,
    ) -> (result: Result<Vec<ApiRequest>, Error>)
        ensures
            match shared_lacks(old(self).context, *shared) {
                Some(message) => *final(self) == *old(self) && (result matches Err(error) && error@
                    == message),
                None => result matches Ok(requests) && ran(
                    *old(self),
                    *final(self),
                    shared_step(*old(self), app_key@, *app_record, *shared),
                    requests@,
                ),
            },
    {
        match shared_members(&self.context, app_record, shared) {
            Ok(attrs) => {
                if attrs.is_empty() {
                    return Ok(no_requests());
                }
                let request = self.api.update_app(app_record.id.as_str(), attrs);
                Ok(
                    self.journal.step(
                        ChangeKind::Update,
                        cat3("app.", app_key, ".shared"),
                        "ensure app record attributes match config",
                        request,
                    ),
                )
            },
            Err(error) => Err(error),
        }
    }

    /// The app info that the configuration speaks of.
    pub fn store_info<'a>(app_key: &str, infos: &'a Vec<AppInfo>) -> (result: Result<
        &'a AppInfo,
        Error,
    >)
        ensures
            if infos@.len() > 0 {
                result == Ok::<&AppInfo, Error>(&infos@[0])
            } else {
                result matches Err(error) && error@ == "app "@ + app_key@
                    + " has no appInfos resource in App Store Connect"@
            },
    {
        if infos.len() > 0 {
            Ok(&infos[0])
        } else {
            Err(
                failure(
                    cat3("app ", app_key, " has no appInfos resource in App Store Connect"),
                ),
            )
        }
    }

    /// Brings the categories of an app up to date. `current` are those in the account.
    pub fn reconcile_categories(
        &mut self,
        app_key: &str,
        info: &AppInfo,
        categories: &AppCategoriesSpec,
        current: CategoryIds,
    ) -> (outcome: Outcome)
        ensures
            ({
                let there = categories_match(*categories, current);
                let subject = "app."@ + app_key@ + ".store_info.categories"@;
                ended(
                    *old(self),
                    *final(self),
                    categories_step(*old(self), app_key@, *info, *categories, current),
                    if there || info.editable() {
                        None
                    } else {
                        Some(
                            "Skipping "@ + subject + " because app info state is "@ + state_name(
                                *info,
                            ) + "."@,
                        )
                    },
                    outcome,
                )
            }),
    {
        if app_info_categories_match(categories, current) {
            return quiet();
        }
        let subject = cat3("app.", app_key, ".store_info.categories");
        if info.is_editable() {
            let request = self.api.update_app_info_categories(info.id.as_str(), categories);
            silent(
                self.journal.step(
                    ChangeKind::Update,
                    subject,
                    "ensure App Store categories match config",
                    request,
                ),
            )
        } else {
            notice(
                cat3("Skipping ", subject.as_str(), " because app info state is ").concat(
                    state_text(info),
                ).concat("."),
            )
        }
    }

    /// Brings the age rating of an app up to date.
    pub fn reconcile_age_rating(
        &mut self,
        app_key: &str,
        info: &AppInfo,
        declaration: &AgeRatingDeclaration,
        age_rating: &OrderedMap<Json>,
    ) -> (outcome: Outcome)
        ensures
            ({
                let there = rating_attrs(*age_rating).submap_of(all_members(declaration.attributes));
                let subject = "app."@ + app_key@ + ".store_info.age_rating"@;
                ended(
                    *old(self),
                    *final(self),
                    rating_step(*old(self), app_key@, *info, *declaration, *age_rating),
                    if there || info.editable() {
                        None
                    } else {
                        Some(
                            "Skipping "@ + subject + " because app info state is "@ + state_name(
                                *info,
                            ) + "."@,
                        )
                    },
                    outcome,
                )
            }),
    {
        if age_rating_matches(declaration, age_rating) {
            return quiet();
        }
        let subject = cat3("app.", app_key, ".store_info.age_rating");
        if info.is_editable() {
            let request = self.api.update_age_rating(declaration.id.as_str(), age_rating);
            silent(
                self.journal.step(
                    ChangeKind::Update,
                    subject,
                    "ensure age rating declaration matches config",
                    request,
                ),
            )
        } else {
            notice(
                cat3("Skipping ", subject.as_str(), " because app info state is ").concat(
                    state_text(info),
                ).concat("."),
            )
        }
    }

    /// Brings one localization of an app info up to date.
    pub fn reconcile_app_info_localization(
        &mut self,
        app_key: &str,
        app_info_id: &str,
        editable: bool,
        locale: &str,
        desired: &ResolvedAppInfoLocalization,
        current: &Vec<AppInfoLocalization>,
    ) -> (outcome: Outcome)
        ensures
            ({
                let existing = info_of_locale(current@, locale@, current@.len());
                let there = existing matches Some(found) && desired.same_in(found);
                let subject = "app."@ + app_key@ + ".store_info.localizations."@ + locale@;
                ended(
                    *old(self),
                    *final(self),
                    info_localization_step(
                        *old(self),
                        app_key@,
                        app_info_id@,
                        editable,
                        locale@,
                        *desired,
                        existing,
                    ),
                    if there || editable {
                        None
                    } else {
                        Some(
                            "Skipping "@ + subject + " because app info is not editable."@,
                        )
                    },
                    outcome,
                )
            }),
    {
        let existing = find_info_locale(current, locale);
        if let Some(found) = existing {
            if desired.matches_existing(found) {
                return quiet();
            }
        }
        let subject = cat3("app.", app_key, ".store_info.localizations.").concat(locale);
        if !editable {
            return notice(
                cat3("Skipping ", subject.as_str(), " because app info is not editable."),
            );
        }
        match existing {
            Some(found) => {
                let request = self.api.update_app_info_localization(found.id.as_str(), desired);
                silent(
                    self.journal.step(
                        ChangeKind::Update,
                        subject,
                        "ensure app info localization matches config",
                        request,
                    ),
                )
            },
            None => {
                let request = self.api.create_app_info_localization(app_info_id, locale, desired);
                silent(
                    self.journal.step(
                        ChangeKind::Create,
                        subject,
                        "ensure app info localization matches config",
                        request,
                    ),
                )
            },
        }
    }

    /// Creates a version that is not in the account. A plan goes on with the changes that the
    /// new version will need.
    pub fn reconcile_missing_version(
        &mut self,
        app_key: &str,
        app_id: &str,
        platform: AppPlatform,
        version: &AppVersionSpec,
    ) -> (requests: Vec<ApiRequest>)
        ensures
            final(self).api == old(self).api,
            final(self).context == old(self).context,
            final(self).journal.mode == old(self).journal.mode,
            final(self).journal.recorded() == old(self).journal.recorded().push(
                ChangeView {
                    kind: ChangeKind::Create,
                    subject: platform_subject(app_key@, platform) + ".version"@,
                    detail: version.version_string@,
                },
            ) + (if old(self).journal.mode == Mode::Plan {
                planned_children(app_key@, platform, *version)
            } else {
                seq![]
            }),
            request_views(requests@) == (if old(self).journal.mode == Mode::Apply {
                seq![old(self).api.new_version(app_id@, platform, *version)]
            } else {
                seq![]
            }),
    {
        let request = self.api.create_version(app_id, platform, version);
        let requests = self.journal.step(
            ChangeKind::Create,
            platform_name(app_key, platform).concat(".version"),
            version.version_string.as_str(),
            request,
        );
        if self.journal.mode == Mode::Plan {
            self.record_planned_version_children(app_key, platform, version);
        } else {
            proof {
                assert(self.journal.recorded() + Seq::<ChangeView>::empty() =~= self.journal.recorded());
            }
        }
        requests
    }

    /// How far a version of the account is brought up to date.
    pub fn reconcile_platform(
        app_key: &str,
        platform: AppPlatform,
        version: &AppVersionSpec,
        record: &AppStoreVersion,
    ) -> (course: PlatformCourse)
        ensures
            if record.editable() {
                course is Whole
            } else {
                course matches PlatformCourse::PromotionalTexts(line) && line@ == "Version "@
                    + platform_subject(app_key@, platform) + ".version "@ + version.version_string@
                    + " is not editable; only always-editable metadata will be considered."@
            },
    {
        if record.is_editable() {
            return PlatformCourse::Whole;
        }
        PlatformCourse::PromotionalTexts(
            cat3("Version ", platform_name(app_key, platform).as_str(), ".version ").concat(
                version.version_string.as_str(),
            ).concat(
                " is not editable; only always-editable metadata will be considered.",
            ),
        )
    }

    /// Writes down the changes that a new version will need.
    pub fn record_planned_version_children(
        &mut self,
        app_key: &str,
        platform: AppPlatform,
        version: &AppVersionSpec,
    )
        ensures
            final(self).api == old(self).api,
            final(self).context == old(self).context,
            final(self).journal.mode == old(self).journal.mode,
            final(self).journal.recorded() == old(self).journal.recorded() + planned_children(
                app_key@,
                platform,
                *version,
            ),
    {
        let base = platform_name(app_key, platform);
        let ghost start = self.journal.recorded();
        if version.build_number.is_some() {
            self.journal.record(
                ChangeKind::Update,
                cat(base.as_str(), ".version.build"),
                "attach configured build",
            );
        }
        let ghost build = planned_build(base@, *version);
        proof {
            assert(self.journal.recorded() =~= start + build);
        }
        record_locales(&mut self.journal, base.as_str(), &version.localizations);
        let ghost locales = planned_locales(
            base@,
            version.localizations.entries(),
            version.localizations.entries().len(),
        );
        if version.review.is_some() {
            self.journal.record(
                ChangeKind::Create,
                cat(base.as_str(), ".review"),
                "create review details",
            );
        }
        let ghost review = planned_review(base@, *version);
        proof {
            assert(self.journal.recorded() =~= start + build + locales + review);
        }
        record_media(&mut self.journal, base.as_str(), &version.media);
        proof {
            let media = planned_media(
                base@,
                version.media.entries(),
                version.media.entries().len(),
            );
            assert(self.journal.recorded() =~= start + (build + locales + review + media));
        }
    }

    /// Brings the attributes of a version up to date.
    pub fn reconcile_version_attrs(
        &mut self,
        app_key: &str,
        platform: AppPlatform,
        current: &AppStoreVersion,
        spec: &AppVersionSpec,
    ) -> (result: Result<Vec<ApiRequest>, Error>)
        ensures
            match old(self).context.lacks(spec.copyright) {
                Some(message) => *final(self) == *old(self) && (result matches Err(error) && error@
                    == message),
                None => result matches Ok(requests) && ran(
                    *old(self),
                    *final(self),
                    version_step(*old(self), app_key@, platform, *current, *spec),
                    requests@,
                ),
            },
    {
        let mut attrs = Members::new();
        if let Err(error) = compare_string_attr(
            &mut attrs,
            "copyright",
            &spec.copyright,
            as_deref(&current.attributes.copyright),
            &self.context,
        ) {
            return Err(error);
        }
        if let Some(release) = &spec.release {
            let kind = match release.kind {
                Some(value) => Some(value.asc_value()),
                None => None,
            };
            compare_text(
                &mut attrs,
                "releaseType",
                kind,
                as_deref(&current.attributes.release_type),
            );
            compare_text(
                &mut attrs,
                "earliestReleaseDate",
                as_deref(&release.earliest_release_date),
                as_deref(&current.attributes.earliest_release_date),
            );
        }
        if attrs.is_empty() {
            return Ok(no_requests());
        }
        let request = self.api.update_version(current.id.as_str(), attrs, None);
        Ok(
            self.journal.step(
                ChangeKind::Update,
                platform_name(app_key, platform).concat(".version"),
                "ensure version attributes match config",
                request,
            ),
        )
    }

    /// Attaches the build of the configuration. `build` is the one that was found.
    pub fn reconcile_build(
        &mut self,
        app_key: &str,
        platform: AppPlatform,
        version_record: &AppStoreVersion,
        build_number: &str,
        build: &Option<Build>,
    ) -> (result: Result<Vec<ApiRequest>, Error>)
        ensures
            match *build {
                None => *final(self) == *old(self) && (result matches Err(error) && error@ == "app "@
                    + app_key@ + " platform "@ + platform.label_of() + " build "@ + build_number@
                    + " is missing or not VALID in App Store Connect"@),
                Some(found) => result matches Ok(requests) && ran(
                    *old(self),
                    *final(self),
                    build_step(
                        *old(self),
                        app_key@,
                        platform,
                        *version_record,
                        build_number@,
                        found,
                    ),
                    requests@,
                ),
            },
    {
        match build {
            None => Err(
                failure(
                    cat3("app ", app_key, " platform ").concat(platform.label()).concat(
                        " build ",
                    ).concat(build_number).concat(
                        " is missing or not VALID in App Store Connect",
                    ),
                ),
            ),
            Some(found) => {
                if version_record.has_build(found.id.as_str()) {
                    return Ok(no_requests());
                }
                let request = self.api.update_version(
                    version_record.id.as_str(),
                    Members::new(),
                    Some(found.id.as_str()),
                );
                Ok(
                    self.journal.step(
                        ChangeKind::Update,
                        platform_name(app_key, platform).concat(".version.build"),
                        cat("attach build ", build_number).as_str(),
                        request,
                    ),
                )
            },
        }
    }

    /// Brings one localization of a version up to date. Of a version that cannot be changed only
    /// the promotional text can.
    pub fn reconcile_version_localization(
        &mut self,
        app_key: &str,
        platform: AppPlatform,
        version_id: &str,
        locale: &str,
        desired: ResolvedVersionLocalization,
        full_editable: bool,
        current: &Vec<AppStoreVersionLocalization>,
    ) -> (requests: Vec<ApiRequest>)
        ensures
            ({
                let existing = version_of_locale(current@, locale@, current@.len());
                ran(
                    *old(self),
                    *final(self),
                    open_localization_step(
                        old(self).api,
                        app_key@,
                        platform,
                        version_id@,
                        locale@,
                        desired,
                        full_editable,
                        existing,
                    ),
                    requests@,
                )
            }),
    {
        let mut wanted = desired;
        if !full_editable {
            wanted = wanted.promotional_text_only();
            if wanted.is_empty() {
                return no_requests();
            }
        }
        let existing = find_version_locale(current, locale);
        if let Some(found) = existing {
            if wanted.matches_existing(found) {
                return no_requests();
            }
        }
        let subject = platform_name(app_key, platform).concat(".localizations.").concat(locale);
        match existing {
            Some(found) => {
                let request = self.api.update_version_localization(found.id.as_str(), &wanted);
                self.journal.step(
                    ChangeKind::Update,
                    subject,
                    "ensure version localization matches config",
                    request,
                )
            },
            None => {
                let request = self.api.create_version_localization(version_id, locale, &wanted);
                self.journal.step(
                    ChangeKind::Create,
                    subject,
                    "ensure version localization matches config",
                    request,
                )
            },
        }
    }

    /// Brings the review details of a version up to date.
    pub fn reconcile_review(
        &mut self,
        app_key: &str,
        platform: AppPlatform,
        version_id: &str,
        desired: &ResolvedReview,
        current: &Option<AppStoreReviewDetail>,
    ) -> (requests: Vec<ApiRequest>)
        ensures
            ran(
                *old(self),
                *final(self),
                review_step(*old(self), app_key@, platform, version_id@, *desired, *current),
                requests@,
            ),
    {
        let subject = platform_name(app_key, platform).concat(".review");
        match current {
            Some(found) => {
                if desired.matches_existing(found) {
                    return no_requests();
                }
                let request = self.api.ensure_review_detail(
                    version_id,
                    Some(found.id.as_str()),
                    desired,
                );
                self.journal.step(
                    ChangeKind::Update,
                    subject,
                    "ensure review details match config",
                    request,
                )
            },
            None => {
                let request = self.api.ensure_review_detail(version_id, None, desired);
                self.journal.step(
                    ChangeKind::Create,
                    subject,
                    "ensure review details match config",
                    request,
                )
            },
        }
    }

    /// Replaces the attachments of review details where they differ: the old ones are deleted,
    /// and the files are sent by the caller.
    pub fn reconcile_review_attachments(
        &mut self,
        app_key: &str,
        platform: AppPlatform,
        files: &Vec<LocalFile>,
        current: &Vec<MediaAsset>,
    ) -> (result: Result<(bool, Vec<ApiRequest>), Error>)
        ensures
            match uploaded(false, current@, files@) {
                Err(message) => *final(self) == *old(self) && (result matches Err(error) && error@
                    == message),
                Ok(there) => result matches Ok(found) && found.0 == (!there
                    && old(self).journal.mode == Mode::Apply) && ran(
                    *old(self),
                    *final(self),
                    attachments_step(
                        *old(self),
                        platform_subject(app_key@, platform),
                        current@,
                        there,
                    ),
                    found.1@,
                ),
            },
    {
        match uploaded_assets_match(current, files) {
            Err(error) => Err(error),
            Ok(there) => {
                if there {
                    return Ok((false, no_requests()));
                }
                let todo = delete_attachments(&self.api, current);
                let send = self.journal.mode == Mode::Apply;
                let requests = self.journal.steps(
                    ChangeKind::Replace,
                    platform_name(app_key, platform).concat(".review.attachments"),
                    "replace review attachments",
                    todo,
                );
                Ok((send, requests))
            },
        }
    }

    /// The localization that the media of a locale belong to.
    pub fn media_localization<'a>(
        app_key: &str,
        platform: AppPlatform,
        locale: &str,
        current: &'a Vec<AppStoreVersionLocalization>,
    ) -> (result: Result<&'a AppStoreVersionLocalization, Error>)
        ensures
            match version_of_locale(current@, locale@, current@.len()) {
                Some(found) => result == Ok::<&AppStoreVersionLocalization, Error>(&found),
                None => result matches Err(error) && error@ == "app "@ + app_key@ + " platform "@
                    + platform.label_of() + " media locale "@ + locale@
                    + " requires a matching version localization"@,
            },
    {
        match find_version_locale(current, locale) {
            Some(found) => Ok(found),
            None => Err(
                failure(
                    cat3("app ", app_key, " platform ").concat(platform.label()).concat(
                        " media locale ",
                    ).concat(locale).concat(" requires a matching version localization"),
                ),
            ),
        }
    }

    /// Replaces a set of screenshots where it differs: the old set is deleted and a new one
    /// created; the files are sent by the caller, in their order.
    pub fn reconcile_screenshots(
        &mut self,
        app_key: &str,
        platform: AppPlatform,
        locale: &str,
        localization_id: &str,
        set: MediaScreenshotSet,
        existing: Option<&MediaSet>,
        current: &Vec<MediaAsset>,
        files: &Vec<LocalFile>,
    ) -> (result: Result<(bool, Vec<ApiRequest>), Error>)
        ensures
            match uploaded(true, current@, files@) {
                Err(message) => *final(self) == *old(self) && (result matches Err(error) && error@
                    == message),
                Ok(there) => result matches Ok(found) && found.0 == (!there
                    && old(self).journal.mode == Mode::Apply) && ran(
                    *old(self),
                    *final(self),
                    screenshots_step(
                        *old(self),
                        platform_subject(app_key@, platform) + ".media."@ + locale@,
                        localization_id@,
                        set,
                        existing,
                        there,
                    ),
                    found.1@,
                ),
            },
    {
        match uploaded_assets_match_ordered(current, files) {
            Err(error) => Err(error),
            Ok(there) => {
                if there {
                    return Ok((false, no_requests()));
                }
                let display_type = set.asc_display_type();
                let removal = match existing {
                    Some(old_set) => Some(self.api.delete_screenshot_set(old_set.id.as_str())),
                    None => None,
                };
                let creation = self.api.create_screenshot_set(localization_id, display_type);
                let todo = replacement(removal, creation);
                let send = self.journal.mode == Mode::Apply;
                let requests = self.journal.steps(
                    ChangeKind::Replace,
                    platform_name(app_key, platform).concat(".media.").concat(locale).concat(
                        ".screenshots.",
                    ).concat(display_type),
                    "replace screenshot set",
                    todo,
                );
                Ok((send, requests))
            },
        }
    }

    /// Replaces a set of app previews where it differs.
    pub fn reconcile_previews(
        &mut self,
        app_key: &str,
        platform: AppPlatform,
        locale: &str,
        localization_id: &str,
        set: MediaPreviewSet,
        existing: Option<&MediaSet>,
        current: &Vec<MediaAsset>,
        files: &Vec<LocalFile>,
    ) -> (result: Result<(bool, Vec<ApiRequest>), Error>)
        ensures
            match uploaded(true, current@, files@) {
                Err(message) => *final(self) == *old(self) && (result matches Err(error) && error@
                    == message),
                Ok(there) => result matches Ok(found) && found.0 == (!there
                    && old(self).journal.mode == Mode::Apply) && ran(
                    *old(self),
                    *final(self),
                    previews_step(
                        *old(self),
                        platform_subject(app_key@, platform) + ".media."@ + locale@,
                        localization_id@,
                        set,
                        existing,
                        there,
                    ),
                    found.1@,
                ),
            },
    {
        match uploaded_assets_match_ordered(current, files) {
            Err(error) => Err(error),
            Ok(there) => {
                if there {
                    return Ok((false, no_requests()));
                }
                let preview_type = set.asc_preview_type();
                let removal = match existing {
                    Some(old_set) => Some(self.api.delete_preview_set(old_set.id.as_str())),
                    None => None,
                };
                let creation = self.api.create_preview_set(localization_id, preview_type);
                let todo = replacement(removal, creation);
                let send = self.journal.mode == Mode::Apply;
                let requests = self.journal.steps(
                    ChangeKind::Replace,
                    platform_name(app_key, platform).concat(".media.").concat(locale).concat(
                        ".app_previews.",
                    ).concat(preview_type),
                    "replace app preview set",
                    todo,
                );
                Ok((send, requests))
            },
        }
    }
}

/// The requests that delete attachments.
pub open spec fn deleted_attachments(api: AppStoreApi, current: Seq<MediaAsset>) -> Seq<
    RequestView,
> {
    current.map_values(
        |asset: MediaAsset| api.delete_view("/appStoreReviewAttachments/"@ + asset.id@),
    )
}

fn delete_attachments(api: &AppStoreApi, current: &Vec<MediaAsset>) -> (requests: Vec<ApiRequest>)
    ensures
        request_views(requests@) == deleted_attachments(*api, current@),
{
    let mut requests: Vec<ApiRequest> = Vec::new();
    let mut i: usize = 0;
    while i < current.len()
        invariant
            i <= current.len(),
            requests.len() == i,
            forall|k: int|
                0 <= k < i ==> (#[trigger] requests@[k])@ == api.delete_view(
                    "/appStoreReviewAttachments/"@ + current@[k].id@,
                ),
        decreases current.len() - i,
    {
        requests.push(api.delete_review_attachment(current[i].id.as_str()));
        i += 1;
    }
    proof {
        assert(request_views(requests@) =~= deleted_attachments(*api, current@));
    }
    requests
}

/// A set that is replaced: the old one goes, where there is one, and a new one comes.
pub open spec fn replaced_set(
    subject: Seq<char>,
    detail: Seq<char>,
    removal: Option<RequestView>,
    creation: RequestView,
) -> StepView {
    StepView {
        change: ChangeView { kind: ChangeKind::Replace, subject, detail },
        requests: match removal {
            Some(request) => seq![request, creation],
            None => seq![creation],
        },
    }
}

/// The requests that replace something.
pub open spec fn replacement_views(removal: Option<ApiRequest>, creation: ApiRequest) -> Seq<
    RequestView,
> {
    match removal {
        Some(request) => seq![request@, creation@],
        None => seq![creation@],
    }
}

/// What there is to do for a set of screenshots.
pub open spec fn screenshots_step(
    sync: AppStoreSync,
    place: Seq<char>,
    localization_id: Seq<char>,
    set: MediaScreenshotSet,
    existing: Option<&MediaSet>,
    there: bool,
) -> Option<StepView> {
    if there {
        None
    } else {
        Some(
            replaced_set(
                place + ".screenshots."@ + set.asc_display_type_of(),
                "replace screenshot set"@,
                match existing {
                    Some(old_set) => Some(
                        sync.api.delete_view("/appScreenshotSets/"@ + old_set.id@),
                    ),
                    None => None,
                },
                sync.api.new_screenshot_set(localization_id, set.asc_display_type_of()),
            ),
        )
    }
}

/// What there is to do for a set of app previews.
pub open spec fn previews_step(
    sync: AppStoreSync,
    place: Seq<char>,
    localization_id: Seq<char>,
    set: MediaPreviewSet,
    existing: Option<&MediaSet>,
    there: bool,
) -> Option<StepView> {
    if there {
        None
    } else {
        Some(
            replaced_set(
                place + ".app_previews."@ + set.asc_preview_type_of(),
                "replace app preview set"@,
                match existing {
                    Some(old_set) => Some(sync.api.delete_view("/appPreviewSets/"@ + old_set.id@)),
                    None => None,
                },
                sync.api.new_preview_set(localization_id, set.asc_preview_type_of()),
            ),
        )
    }
}

/// What there is to do for the attachments of review details.
pub open spec fn attachments_step(
    sync: AppStoreSync,
    place: Seq<char>,
    current: Seq<MediaAsset>,
    there: bool,
) -> Option<StepView> {
    if there {
        None
    } else {
        Some(
            StepView {
                change: ChangeView {
                    kind: ChangeKind::Replace,
                    subject: place + ".review.attachments"@,
                    detail: "replace review attachments"@,
                },
                requests: deleted_attachments(sync.api, current),
            },
        )
    }
}

/// The requests that replace something.
pub fn replacement(removal: Option<ApiRequest>, creation: ApiRequest) -> (todo: Vec<ApiRequest>)
    ensures
        request_views(todo@) == replacement_views(removal, creation),
{
    let mut todo: Vec<ApiRequest> = Vec::new();
    let ghost expected = replacement_views(removal, creation);
    if let Some(request) = removal {
        todo.push(request);
    }
    todo.push(creation);
    proof {
        assert(request_views(todo@) =~= expected);
    }
    todo
}

/// The build that a new version will need.
pub open spec fn planned_build(base: Seq<char>, version: AppVersionSpec) -> Seq<ChangeView> {
    if version.build_number is Some {
        seq![
            ChangeView {
                kind: ChangeKind::Update,
                subject: base + ".version.build"@,
                detail: "attach configured build"@,
            },
        ]
    } else {
        seq![]
    }
}

/// The localizations that a new version will need.
pub open spec fn planned_locales(
    base: Seq<char>,
    entries: Seq<(Seq<char>, AppVersionLocalizationSource)>,
    n: nat,
) -> Seq<ChangeView>
    decreases n,
{
    if n == 0 || n > entries.len() {
        seq![]
    } else {
        planned_locales(base, entries, (n - 1) as nat).push(
            ChangeView {
                kind: ChangeKind::Create,
                subject: base + ".localizations."@ + entries[n - 1].0,
                detail: "create version localization"@,
            },
        )
    }
}

/// The review details that a new version will need.
pub open spec fn planned_review(base: Seq<char>, version: AppVersionSpec) -> Seq<ChangeView> {
    if version.review is Some {
        seq![
            ChangeView {
                kind: ChangeKind::Create,
                subject: base + ".review"@,
                detail: "create review details"@,
            },
        ]
    } else {
        seq![]
    }
}

/// The screenshot sets that a locale of a new version will need.
pub open spec fn planned_screenshots(
    base: Seq<char>,
    entries: Seq<(MediaScreenshotSet, MediaScreenshotSource)>,
    n: nat,
) -> Seq<ChangeView>
    decreases n,
{
    if n == 0 || n > entries.len() {
        seq![]
    } else {
        planned_screenshots(base, entries, (n - 1) as nat).push(
            ChangeView {
                kind: ChangeKind::Replace,
                subject: base + ".screenshots."@ + entries[n - 1].0.asc_display_type_of(),
                detail: "replace screenshot set"@,
            },
        )
    }
}

/// The preview sets that a locale of a new version will need.
pub open spec fn planned_previews(
    base: Seq<char>,
    entries: Seq<(MediaPreviewSet, MediaPathList)>,
    n: nat,
) -> Seq<ChangeView>
    decreases n,
{
    if n == 0 || n > entries.len() {
        seq![]
    } else {
        planned_previews(base, entries, (n - 1) as nat).push(
            ChangeView {
                kind: ChangeKind::Replace,
                subject: base + ".app_previews."@ + entries[n - 1].0.asc_preview_type_of(),
                detail: "replace app preview set"@,
            },
        )
    }
}

/// The media sets that a new version will need, locale by locale.
pub open spec fn planned_media(
    base: Seq<char>,
    entries: Seq<(Seq<char>, AppMediaLocalizationSpec)>,
    n: nat,
) -> Seq<ChangeView>
    decreases n,
{
    if n == 0 || n > entries.len() {
        seq![]
    } else {
        let place = base + ".media."@ + entries[n - 1].0;
        let media = entries[n - 1].1;
        planned_media(base, entries, (n - 1) as nat) + planned_screenshots(
            place,
            media.screenshots.entries(),
            media.screenshots.entries().len(),
        ) + planned_previews(
            place,
            media.app_previews.entries(),
            media.app_previews.entries().len(),
        )
    }
}

/// The changes that a new version will need.
pub open spec fn planned_children(
    app_key: Seq<char>,
    platform: AppPlatform,
    version: AppVersionSpec,
) -> Seq<ChangeView> {
    let base = platform_subject(app_key, platform);
    planned_build(base, version) + planned_locales(
        base,
        version.localizations.entries(),
        version.localizations.entries().len(),
    ) + planned_review(base, version) + planned_media(
        base,
        version.media.entries(),
        version.media.entries().len(),
    )
}

fn record_locales(
    journal: &mut Journal,
    base: &str,
    localizations: &OrderedMap<AppVersionLocalizationSource>,
)
    ensures
        final(journal).mode == old(journal).mode,
        final(journal).recorded() == old(journal).recorded() + planned_locales(
            base@,
            localizations.entries(),
            localizations.entries().len(),
        ),
{
    let ghost start = journal.recorded();
    let n: usize = localizations.len();
    let mut i: usize = 0;
    proof {
        assert(start + Seq::<ChangeView>::empty() =~= start);
    }
    while i < n
        invariant
            i <= n == localizations.entries().len(),
            journal.mode == old(journal).mode,
            journal.recorded() == start + planned_locales(base@, localizations.entries(), i as nat),
        decreases n - i,
    {
        let ghost before = planned_locales(base@, localizations.entries(), i as nat);
        journal.record(
            ChangeKind::Create,
            cat3(base, ".localizations.", localizations.key_at(i).as_str()),
            "create version localization",
        );
        proof {
            let after = planned_locales(base@, localizations.entries(), (i + 1) as nat);
            assert(journal.recorded() =~= start + after);
        }
        i += 1;
    }
}

fn record_screenshots(
    journal: &mut Journal,
    base: &str,
    sets: &RankedMap<MediaScreenshotSet, MediaScreenshotSource>,
)
    ensures
        final(journal).mode == old(journal).mode,
        final(journal).recorded() == old(journal).recorded() + planned_screenshots(
            base@,
            sets.entries(),
            sets.entries().len(),
        ),
{
    let ghost start = journal.recorded();
    let n: usize = sets.len();
    let mut i: usize = 0;
    proof {
        assert(start + Seq::<ChangeView>::empty() =~= start);
    }
    while i < n
        invariant
            i <= n == sets.entries().len(),
            journal.mode == old(journal).mode,
            journal.recorded() == start + planned_screenshots(base@, sets.entries(), i as nat),
        decreases n - i,
    {
        journal.record(
            ChangeKind::Replace,
            cat3(base, ".screenshots.", sets.key_at(i).asc_display_type()),
            "replace screenshot set",
        );
        proof {
            let after = planned_screenshots(base@, sets.entries(), (i + 1) as nat);
            assert(journal.recorded() =~= start + after);
        }
        i += 1;
    }
}

fn record_previews(
    journal: &mut Journal,
    base: &str,
    sets: &RankedMap<MediaPreviewSet, MediaPathList>,
)
    ensures
        final(journal).mode == old(journal).mode,
        final(journal).recorded() == old(journal).recorded() + planned_previews(
            base@,
            sets.entries(),
            sets.entries().len(),
        ),
{
    let ghost start = journal.recorded();
    let n: usize = sets.len();
    let mut i: usize = 0;
    proof {
        assert(start + Seq::<ChangeView>::empty() =~= start);
    }
    while i < n
        invariant
            i <= n == sets.entries().len(),
            journal.mode == old(journal).mode,
            journal.recorded() == start + planned_previews(base@, sets.entries(), i as nat),
        decreases n - i,
    {
        journal.record(
            ChangeKind::Replace,
            cat3(base, ".app_previews.", sets.key_at(i).asc_preview_type()),
            "replace app preview set",
        );
        proof {
            let after = planned_previews(base@, sets.entries(), (i + 1) as nat);
            assert(journal.recorded() =~= start + after);
        }
        i += 1;
    }
}

fn record_media(
    journal: &mut Journal,
    base: &str,
    media: &OrderedMap<AppMediaLocalizationSpec>,
)
    ensures
        final(journal).mode == old(journal).mode,
        final(journal).recorded() == old(journal).recorded() + planned_media(
            base@,
            media.entries(),
            media.entries().len(),
        ),
{
    let ghost start = journal.recorded();
    let n: usize = media.len();
    let mut i: usize = 0;
    proof {
        assert(start + Seq::<ChangeView>::empty() =~= start);
    }
    while i < n
        invariant
            i <= n == media.entries().len(),
            journal.mode == old(journal).mode,
            journal.recorded() == start + planned_media(base@, media.entries(), i as nat),
        decreases n - i,
    {
        let place = cat3(base, ".media.", media.key_at(i).as_str());
        let spec = media.value_at(i);
        let ghost before = planned_media(base@, media.entries(), i as nat);
        record_screenshots(journal, place.as_str(), &spec.screenshots);
        record_previews(journal, place.as_str(), &spec.app_previews);
        proof {
            let after = planned_media(base@, media.entries(), (i + 1) as nat);
            assert(journal.recorded() =~= start + after);
        }
        i += 1;
    }
}

/// How long to wait for an app record, in seconds.
pub const APP_RECORD_POLL_SECONDS: u64 = 5;

/// What to do where an app has no record in the account: a plan fails, otherwise wait for it.
pub fn find_or_wait_for_app_record(bundle_id: &str, app_key: &str, mode: Mode) -> (result: Result<
    u64,
    Error,
>)
    ensures
        match mode {
            Mode::Apply => result == Ok::<u64, Error>(APP_RECORD_POLL_SECONDS),
            Mode::Plan => result matches Err(error) && error@
                == "App Store Connect app record for app "@ + app_key@ + " ("@ + bundle_id@
                + ") does not exist; create it in App Store Connect before apply"@,
        },
{
    if mode == Mode::Plan {
        return Err(
            failure(
                cat3("App Store Connect app record for app ", app_key, " (").concat(
                    bundle_id,
                ).concat(") does not exist; create it in App Store Connect before apply"),
            ),
        );
    }
    Ok(APP_RECORD_POLL_SECONDS)
}

/// What a submission is about.
#[derive(Debug)]
pub struct SubmitTarget<'a> {
    pub app_key: &'a str,
    pub app: &'a AppSpec,
    pub platform: AppPlatform,
    pub version: &'a AppVersionSpec,
}

/// The app that a submission is about, or the message that is due.
pub open spec fn submit_app(config: Config, explicit: Option<Seq<char>>) -> Result<
    (Seq<char>, AppSpec),
    Seq<char>,
> {
    let apps = config.apps.entries();
    match explicit {
        Some(key) => if config.apps@.contains_key(key) {
            Ok((key, config.apps@[key]))
        } else {
            Err("unknown app key "@ + key)
        },
        None => if apps.len() == 0 {
            Err("submit_for_review requires at least one app in asc.json"@)
        } else if apps.len() > 1 {
            Err("submit_for_review requires --app when asc.json contains multiple apps"@)
        } else {
            Ok(apps[0])
        },
    }
}

/// The version that a submission is about, or the message that is due.
pub open spec fn submit_version(app_key: Seq<char>, app: AppSpec, explicit: Option<AppPlatform>) ->
    Result<(AppPlatform, AppVersionSpec), Seq<char>> {
    let platforms = app.platforms.entries();
    match explicit {
        Some(platform) => if app.platforms@.contains_key(platform) {
            Ok((platform, app.platforms@[platform].version))
        } else {
            Err("app "@ + app_key + " does not define platform "@ + platform.label_of())
        },
        None => if platforms.len() == 0 {
            Err("app "@ + app_key + " does not define any platforms"@)
        } else if platforms.len() > 1 {
            Err(
                "submit_for_review requires --platform when app "@ + app_key
                    + " contains multiple platforms"@,
            )
        } else {
            Ok((platforms[0].0, platforms[0].1.version))
        },
    }
}

/// What a submission is about: the given app and platform, or the only ones.
pub fn resolve_submit_target<'a>(
    config: &'a Config,
    explicit_app: Option<&'a str>,
    explicit_platform: Option<AppPlatform>,
) -> (result: Result<SubmitTarget<'a>, Error>)
    ensures
        match submit_app(*config, given(explicit_app)) {
            Err(message) => result matches Err(error) && error@ == message,
            Ok(found) => match submit_version(found.0, found.1, explicit_platform) {
                Err(message) => result matches Err(error) && error@ == message,
                Ok(version) => result matches Ok(target) && target.app_key@ == found.0
                    && *target.app == found.1 && target.platform == version.0 && *target.version
                    == version.1,
            },
        },
{
    let (app_key, app) = match explicit_app {
        Some(key) => match config.apps.get(key) {
            Some(app) => (key, app),
            None => {
                return Err(failure(cat("unknown app key ", key)));
            },
        },
        None => {
            let n: usize = config.apps.len();
            if n == 0 {
                return Err(
                    failure(
                        "submit_for_review requires at least one app in asc.json".to_owned(),
                    ),
                );
            }
            if n > 1 {
                return Err(
                    failure(
                        "submit_for_review requires --app when asc.json contains multiple apps".to_owned(),
                    ),
                );
            }
            (config.apps.key_at(0).as_str(), config.apps.value_at(0))
        },
    };
    match explicit_platform {
        Some(platform) => match app.platforms.get(platform) {
            Some(spec) => Ok(SubmitTarget { app_key, app, platform, version: &spec.version }),
            None => Err(
                failure(
                    cat3("app ", app_key, " does not define platform ").concat(platform.label()),
                ),
            ),
        },
        None => {
            let n: usize = app.platforms.len();
            if n == 0 {
                return Err(
                    failure(cat3("app ", app_key, " does not define any platforms")),
                );
            }
            if n > 1 {
                return Err(
                    failure(
                        cat3(
                            "submit_for_review requires --platform when app ",
                            app_key,
                            " contains multiple platforms",
                        ),
                    ),
                );
            }
            Ok(
                SubmitTarget {
                    app_key,
                    app,
                    platform: app.platforms.key_at(0),
                    version: &app.platforms.value_at(0).version,
                },
            )
        },
    }
}

/// The version to submit must be in the account.
pub fn submitted_version<'a>(
    app_key: &str,
    platform: AppPlatform,
    version_string: &str,
    found: &'a Option<AppStoreVersion>,
) -> (result: Result<&'a AppStoreVersion, Error>)
    ensures
        match *found {
            Some(version) => result == Ok::<&AppStoreVersion, Error>(&version),
            None => result matches Err(error) && error@ == "app "@ + app_key@ + " platform "@
                + platform.label_of() + " version "@ + version_string@
                + " does not exist; run apply first"@,
        },
{
    match found {
        Some(version) => Ok(version),
        None => Err(
            failure(
                cat3("app ", app_key, " platform ").concat(platform.label()).concat(
                    " version ",
                ).concat(version_string).concat(" does not exist; run apply first"),
            ),
        ),
    }
}

} // verus!
