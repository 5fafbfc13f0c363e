//! What the account holds once it has taken the requests of a run.

use vstd::prelude::*;
use vstd::string::*;
use crate::api::{link_view, reference_view, resource_members, RequestView, Verb};
use crate::app_store::reconcile::{
    attachments_step, build_step, categories_step, info_localization_step, open_localization_step,
    previews_step, rating_step, review_step, screenshots_step, shared_step, version_step,
    AppStoreSync, CategoryIds,
};
use crate::app_store::rating::{camel, capital, rating_attrs, rating_members};
use crate::app_store::requests::{AppStoreApi, MembersView};
use crate::app_store::resolve::{
    ResolveContext, ResolvedAppInfoLocalization, ResolvedReview, ResolvedVersionLocalization,
};
use crate::app_store::{
    AgeRatingDeclaration, AppInfo, AppInfoLocalization, AppStoreReviewDetail, AppStoreVersion,
    AppStoreVersionLocalization, Build, MediaAsset, MediaSet,
};
use crate::asc::App;
use crate::config::{
    AppCategoriesSpec, AppPlatform, AppSharedSpec, AppVersionSpec, MediaPreviewSet,
    MediaScreenshotSet, StringSource,
};
use crate::json::{all_members, member, Json, JsonView};
use crate::ordered::OrderedMap;
use crate::sync::{ChangeKind, StepView};
use crate::text::owned;

verus! {

/// The resource that a request speaks of in its body.
pub open spec fn told(request: RequestView) -> Option<JsonView> {
    match request.body {
        Some(body) => member(body, "data"@),
        None => None,
    }
}

/// A text that the resource of a request has.
pub open spec fn told_text(request: RequestView, key: Seq<char>) -> Option<Seq<char>> {
    match told(request) {
        Some(resource) => match member(resource, key) {
            Some(JsonView::Text(text)) => Some(text),
            _ => None,
        },
        None => None,
    }
}

/// An attribute that a request sends.
pub open spec fn sent(request: RequestView, key: Seq<char>) -> Option<JsonView> {
    match told(request) {
        Some(resource) => match member(resource, "attributes"@) {
            Some(attributes) => member(attributes, key),
            None => None,
        },
        None => None,
    }
}

/// The resource that a request sends under a relationship: its type and its id.
pub open spec fn sent_link(request: RequestView, key: Seq<char>) -> Option<
    (JsonView, JsonView),
> {
    match told(request) {
        Some(resource) => match member(resource, "relationships"@) {
            Some(links) => match member(links, key) {
                Some(link) => match member(link, "data"@) {
                    Some(target) => match (member(target, "type"@), member(target, "id"@)) {
                        (Some(kind), Some(id)) => Some((kind, id)),
                        _ => None,
                    },
                    None => None,
                },
                None => None,
            },
            None => None,
        },
        None => None,
    }
}

/// A text of the account once it has taken what there was to do.
pub open spec fn text_now(
    step: Option<StepView>,
    key: Seq<char>,
    before: Option<Seq<char>>,
) -> Option<Seq<char>> {
    match step {
        Some(todo) => match sent(todo.requests.last(), key) {
            Some(JsonView::Text(text)) => Some(text),
            _ => before,
        },
        None => before,
    }
}

/// A Boolean of the account once it has taken what there was to do.
pub open spec fn truth_now(step: Option<StepView>, key: Seq<char>, before: Option<bool>) -> Option<
    bool,
> {
    match step {
        Some(todo) => match sent(todo.requests.last(), key) {
            Some(JsonView::Bool(value)) => Some(value),
            _ => before,
        },
        None => before,
    }
}

/// The id behind a relationship of the account once it has taken what there was to do.
pub open spec fn link_now(
    step: Option<StepView>,
    key: Seq<char>,
    kind: Seq<char>,
    before: Option<Seq<char>>,
) -> Option<Seq<char>> {
    match step {
        Some(todo) => match sent_link(todo.requests.last(), key) {
            Some((JsonView::Text(found), JsonView::Text(id))) => if found == kind {
                Some(id)
            } else {
                before
            },
            _ => before,
        },
        None => before,
    }
}

/// What there is to do is one request that changes the resource with an id.
pub open spec fn changes_one(
    step: Option<StepView>,
    base: Seq<char>,
    kind: Seq<char>,
    id: Seq<char>,
) -> bool {
    step matches Some(todo) ==> {
        &&& todo.requests.len() == 1
        &&& todo.requests[0].verb == Verb::Patch
        &&& todo.requests[0].url == base + "/"@ + kind + "/"@ + id
        &&& told_text(todo.requests[0], "id"@) == Some(id)
        &&& told_text(todo.requests[0], "type"@) == Some(kind)
    }
}

/// What there is to do is one request that creates a resource for an owner.
pub open spec fn creates_one(
    step: Option<StepView>,
    base: Seq<char>,
    kind: Seq<char>,
    owner_key: Seq<char>,
    owner_kind: Seq<char>,
    owner: Seq<char>,
) -> bool {
    step matches Some(todo) ==> {
        &&& todo.requests.len() == 1
        &&& todo.requests[0].verb == Verb::Post
        &&& todo.requests[0].url == base + "/"@ + kind
        &&& told_text(todo.requests[0], "id"@) is None
        &&& told_text(todo.requests[0], "type"@) == Some(kind)
        &&& sent_link(todo.requests[0], owner_key) == Some(
            (JsonView::Text(owner_kind), JsonView::Text(owner)),
        )
    }
}

/// What is wanted is there.
pub open spec fn has_wanted(wanted: Option<Seq<char>>, found: Option<Seq<char>>) -> bool {
    wanted is Some ==> found == wanted
}

/// A text is what a source of the configuration gives: the source itself, or the variable that it
/// names, of the environment first and of the `.env` file else.
pub open spec fn source_gives(
    context: ResolveContext,
    source: Option<StringSource>,
    text: Option<Seq<char>>,
) -> bool {
    match source {
        None => true,
        Some(StringSource::Literal(value)) => text == Some(value@),
        Some(StringSource::Env { env }) => {
            &&& context.env@.contains_key(env@) ==> text == Some(context.env@[env@]@)
            &&& !context.env@.contains_key(env@) && context.dotenv@.contains_key(env@) ==> text
                == Some(context.dotenv@[env@]@)
        },
    }
}

/// A source of the configuration that is given and can be read.
pub open spec fn source_known(context: ResolveContext, source: Option<StringSource>) -> bool {
    source matches Some(StringSource::Env { env }) ==> context.env@.contains_key(env@)
        || context.dotenv@.contains_key(env@)
}

proof fn lemma_names()
    ensures
        "data"@ != "id"@,
        "type"@ != "id"@,
        "type"@ != "attributes"@,
        "type"@ != "relationships"@,
        "id"@ != "attributes"@,
        "id"@ != "relationships"@,
        "attributes"@ != "relationships"@,
{
    reveal_strlit("data");
    reveal_strlit("id");
    reveal_strlit("type");
    reveal_strlit("attributes");
    reveal_strlit("relationships");
    assert("type"@.len() == 4 && "id"@.len() == 2 && "attributes"@.len() == 10
        && "relationships"@.len() == 13);
}

pub(crate) proof fn lemma_endpoint(base: Seq<char>, path: Seq<char>)
    requires
        path.len() > 1,
        path[1] != 'v',
    ensures
        crate::asc::endpoint(base, path) == base + path,
{
    reveal_strlit("/v2/");
    reveal_strlit("/v3/");
    if crate::text::starts(path, "/v2/"@) {
        assert(path.take(4)[1] == "/v2/"@[1]);
    }
    if crate::text::starts(path, "/v3/"@) {
        assert(path.take(4)[1] == "/v3/"@[1]);
    }
}

/// A request that changes a resource names it in its address and in its body, and sends its
/// attributes and relationships and no others.
pub proof fn law_changes_are_sent(
    api: AppStoreApi,
    path: Seq<char>,
    kind: Seq<char>,
    id: Seq<char>,
    attributes: MembersView,
    relationships: MembersView,
    key: Seq<char>,
)
    requires
        path.len() > 1,
        path[1] != 'v',
    ensures
        ({
            let request = api.patch_view(path, kind, id, attributes, relationships);
            &&& request.verb == Verb::Patch
            &&& request.url == api.base_url@ + path + "/"@ + id
            &&& told_text(request, "type"@) == Some(kind)
            &&& told_text(request, "id"@) == Some(id)
            &&& sent(request, key) == (if attributes.contains_key(key) {
                Some(attributes[key])
            } else {
                None
            })
            &&& relationships.contains_key(key) ==> (told(request) matches Some(resource) && (
            member(resource, "relationships"@) matches Some(links) && member(links, key) == Some(
                relationships[key],
            )))
        }),
{
    lemma_names();
    lemma_endpoint(api.base_url@, path + "/"@ + id);
    assert(api.base_url@ + (path + "/"@ + id) =~= api.base_url@ + path + "/"@ + id);
    let none = Map::<Seq<char>, JsonView>::empty();
    if attributes == none {
        assert(!attributes.contains_key(key));
    }
}

/// A request that creates a resource sends its attributes and relationships and no others.
pub proof fn law_creations_are_sent(
    api: AppStoreApi,
    path: Seq<char>,
    kind: Seq<char>,
    attributes: MembersView,
    relationships: MembersView,
    key: Seq<char>,
)
    requires
        path.len() > 1,
        path[1] != 'v',
    ensures
        ({
            let request = api.post_view(path, kind, attributes, relationships);
            &&& request.verb == Verb::Post
            &&& request.url == api.base_url@ + path
            &&& told_text(request, "type"@) == Some(kind)
            &&& told_text(request, "id"@) is None
            &&& sent(request, key) == (if attributes.contains_key(key) {
                Some(attributes[key])
            } else {
                None
            })
            &&& relationships.contains_key(key) ==> (told(request) matches Some(resource) && (
            member(resource, "relationships"@) matches Some(links) && member(links, key) == Some(
                relationships[key],
            )))
        }),
{
    lemma_names();
    lemma_endpoint(api.base_url@, path);
    let none = Map::<Seq<char>, JsonView>::empty();
    if attributes == none {
        assert(!attributes.contains_key(key));
    }
}

/// Once the account has taken the version attributes that were sent, its copyright, release type and
/// earliest release date each are what the configuration gives, wherever it gives one, and stay as
/// they were elsewhere. Nothing is sent just where they are already.
pub proof fn law_version_attributes_settle(
    sync: AppStoreSync,
    app_key: Seq<char>,
    platform: AppPlatform,
    current: AppStoreVersion,
    spec: AppVersionSpec,
)
    requires
        source_known(sync.context, spec.copyright),
    ensures
        ({
            let step = version_step(sync, app_key, platform, current, spec);
            let found = current.attributes;
            let copyright = text_now(step, "copyright"@, owned(found.copyright));
            let kind = text_now(step, "releaseType"@, owned(found.release_type));
            let date = text_now(step, "earliestReleaseDate"@, owned(found.earliest_release_date));
            &&& source_gives(sync.context, spec.copyright, copyright)
            &&& spec.copyright is None ==> copyright == owned(found.copyright)
            &&& match spec.release {
                Some(release) => {
                    &&& release.kind matches Some(wanted) ==> kind == Some(wanted.asc_value_of())
                    &&& release.kind is None ==> kind == owned(found.release_type)
                    &&& release.earliest_release_date matches Some(wanted) ==> date == Some(wanted@)
                    &&& release.earliest_release_date is None ==> date == owned(
                        found.earliest_release_date,
                    )
                },
                None => kind == owned(found.release_type) && date == owned(
                    found.earliest_release_date,
                ),
            }
            &&& step is None <==> {
                &&& source_gives(sync.context, spec.copyright, owned(found.copyright))
                &&& spec.release matches Some(release) ==> {
                    &&& release.kind matches Some(wanted) ==> owned(found.release_type) == Some(
                        wanted.asc_value_of(),
                    )
                    &&& release.earliest_release_date matches Some(wanted) ==> owned(
                        found.earliest_release_date,
                    ) == Some(wanted@)
                }
            }
            &&& changes_one(step, sync.api.base_url@, "appStoreVersions"@, current.id@)
        }),
{
    lemma_names();
    reveal_strlit("copyright");
    reveal_strlit("releaseType");
    reveal_strlit("earliestReleaseDate");
    assert("copyright"@.len() == 9 && "releaseType"@.len() == 11 && "earliestReleaseDate"@.len()
        == 19);
    reveal_strlit("/appStoreVersions");
    reveal_strlit("appStoreVersions");
    reveal_strlit("/");
    let attrs = crate::app_store::reconcile::version_attrs(sync.context, current, spec);
    let none = Map::<Seq<char>, JsonView>::empty();
    let path = "/appStoreVersions"@;
    law_changes_are_sent(
        sync.api,
        path,
        "appStoreVersions"@,
        current.id@,
        attrs,
        none,
        "copyright"@,
    );
    law_changes_are_sent(
        sync.api,
        path,
        "appStoreVersions"@,
        current.id@,
        attrs,
        none,
        "releaseType"@,
    );
    law_changes_are_sent(
        sync.api,
        path,
        "appStoreVersions"@,
        current.id@,
        attrs,
        none,
        "earliestReleaseDate"@,
    );
    assert(path =~= "/"@ + "appStoreVersions"@);
    assert(sync.api.base_url@ + path + "/"@ + current.id@ =~= sync.api.base_url@ + "/"@
        + "appStoreVersions"@ + "/"@ + current.id@);
    if attrs == none {
        assert(!attrs.contains_key("copyright"@));
        assert(!attrs.contains_key("releaseType"@));
        assert(!attrs.contains_key("earliestReleaseDate"@));
    } else {
        assert(attrs.contains_key("copyright"@) || attrs.contains_key("releaseType"@)
            || attrs.contains_key("earliestReleaseDate"@));
    }
}

/// The view of a member that may be missing.
pub open spec fn listed(members: MembersView, key: Seq<char>) -> Option<JsonView> {
    if members.contains_key(key) {
        Some(members[key])
    } else {
        None
    }
}

/// The relationships of a resource lead where a request says, and it has no others.
proof fn lemma_links(request: RequestView, relationships: MembersView)
    requires
        told(request) matches Some(resource) && member(resource, "relationships"@) == (
        if relationships == Map::<Seq<char>, JsonView>::empty() {
            None
        } else {
            Some(JsonView::Object(relationships))
        }),
    ensures
        forall|key: Seq<char>, kind: Seq<char>, id: Seq<char>|
            #![trigger sent_link(request, key), link_view(kind, id)]
            relationships.contains_key(key) && relationships[key] == link_view(kind, id)
                ==> sent_link(request, key) == Some((JsonView::Text(kind), JsonView::Text(id))),
        forall|key: Seq<char>|
            !relationships.contains_key(key) ==> #[trigger] sent_link(request, key) is None,
{
    lemma_names();
    let none = Map::<Seq<char>, JsonView>::empty();
    assert forall|key: Seq<char>, kind: Seq<char>, id: Seq<char>|
        #![trigger sent_link(request, key), link_view(kind, id)]
        relationships.contains_key(key) && relationships[key] == link_view(
            kind,
            id,
        ) implies sent_link(request, key) == Some((JsonView::Text(kind), JsonView::Text(id))) by {
        if relationships == none {
            assert(!relationships.contains_key(key));
        }
        let target = member(link_view(kind, id), "data"@);
        assert(target == Some(reference_view(kind, id)));
    }
}

/// All that the body of a request says of its resource.
pub(crate) proof fn lemma_body(
    request: RequestView,
    id: Option<Seq<char>>,
    kind: Seq<char>,
    attributes: MembersView,
    relationships: MembersView,
)
    requires
        told(request) == Some(
            JsonView::Object(resource_members(id, kind, attributes, relationships)),
        ),
    ensures
        told_text(request, "type"@) == Some(kind),
        told_text(request, "id"@) == id,
        forall|key: Seq<char>| #[trigger] sent(request, key) == listed(attributes, key),
        forall|key: Seq<char>, target: Seq<char>, other: Seq<char>|
            #![trigger sent_link(request, key), link_view(target, other)]
            relationships.contains_key(key) && relationships[key] == link_view(target, other)
                ==> sent_link(request, key) == Some(
                (JsonView::Text(target), JsonView::Text(other)),
            ),
        forall|key: Seq<char>|
            !relationships.contains_key(key) ==> #[trigger] sent_link(request, key) is None,
{
    lemma_names();
    let none = Map::<Seq<char>, JsonView>::empty();
    assert forall|key: Seq<char>| #[trigger] sent(request, key) == listed(attributes, key) by {
        if attributes == none {
            assert(!attributes.contains_key(key));
        }
    }
    lemma_links(request, relationships);
}

/// All of a request that changes a resource.
pub(crate) proof fn lemma_patch(
    api: AppStoreApi,
    path: Seq<char>,
    kind: Seq<char>,
    id: Seq<char>,
    attributes: MembersView,
    relationships: MembersView,
)
    requires
        path == "/"@ + kind,
        kind.len() > 0,
        kind[0] != 'v',
    ensures
        ({
            let request = api.patch_view(path, kind, id, attributes, relationships);
            &&& request.verb == Verb::Patch
            &&& request.url == api.base_url@ + "/"@ + kind + "/"@ + id
            &&& told_text(request, "type"@) == Some(kind)
            &&& told_text(request, "id"@) == Some(id)
            &&& forall|key: Seq<char>| #[trigger] sent(request, key) == listed(attributes, key)
            &&& forall|key: Seq<char>, target: Seq<char>, other: Seq<char>|
                #![trigger sent_link(request, key), link_view(target, other)]
                relationships.contains_key(key) && relationships[key] == link_view(target, other)
                    ==> sent_link(request, key) == Some(
                    (JsonView::Text(target), JsonView::Text(other)),
                )
            &&& forall|key: Seq<char>|
                !relationships.contains_key(key) ==> #[trigger] sent_link(request, key) is None
        }),
{
    reveal_strlit("/");
    let request = api.patch_view(path, kind, id, attributes, relationships);
    lemma_names();
    assert forall|key: Seq<char>| #[trigger] sent(request, key) == listed(attributes, key) by {
        law_changes_are_sent(api, path, kind, id, attributes, relationships, key);
    }
    law_changes_are_sent(api, path, kind, id, attributes, relationships, ""@);
    lemma_links(request, relationships);
    assert(api.base_url@ + path + "/"@ + id =~= api.base_url@ + "/"@ + kind + "/"@ + id);
}

/// All of a request that creates a resource.
pub(crate) proof fn lemma_post(
    api: AppStoreApi,
    path: Seq<char>,
    kind: Seq<char>,
    attributes: MembersView,
    relationships: MembersView,
)
    requires
        path == "/"@ + kind,
        kind.len() > 0,
        kind[0] != 'v',
    ensures
        ({
            let request = api.post_view(path, kind, attributes, relationships);
            &&& request.verb == Verb::Post
            &&& request.url == api.base_url@ + "/"@ + kind
            &&& told_text(request, "type"@) == Some(kind)
            &&& told_text(request, "id"@) is None
            &&& forall|key: Seq<char>| #[trigger] sent(request, key) == listed(attributes, key)
            &&& forall|key: Seq<char>, target: Seq<char>, other: Seq<char>|
                #![trigger sent_link(request, key), link_view(target, other)]
                relationships.contains_key(key) && relationships[key] == link_view(target, other)
                    ==> sent_link(request, key) == Some(
                    (JsonView::Text(target), JsonView::Text(other)),
                )
            &&& forall|key: Seq<char>|
                !relationships.contains_key(key) ==> #[trigger] sent_link(request, key) is None
        }),
{
    reveal_strlit("/");
    let request = api.post_view(path, kind, attributes, relationships);
    lemma_names();
    assert forall|key: Seq<char>| #[trigger] sent(request, key) == listed(attributes, key) by {
        law_creations_are_sent(api, path, kind, attributes, relationships, key);
    }
    law_creations_are_sent(api, path, kind, attributes, relationships, ""@);
    lemma_links(request, relationships);
    assert(api.base_url@ + path =~= api.base_url@ + "/"@ + kind);
}

/// Once the account has taken the shared attributes that were sent, each of them is what the
/// configuration gives, wherever it gives one, and stays as it was elsewhere. Nothing is sent just
/// where they are already.
pub proof fn law_shared_attributes_are_taken(
    sync: AppStoreSync,
    app_key: Seq<char>,
    app: App,
    shared: AppSharedSpec,
)
    requires
        source_known(sync.context, shared.primary_locale),
        source_known(sync.context, shared.accessibility_url),
        source_known(sync.context, shared.subscription_status_url),
        source_known(sync.context, shared.subscription_status_url_for_sandbox),
    ensures
        ({
            let step = shared_step(sync, app_key, app, shared);
            let found = app.attributes;
            let primary_locale = text_now(
                step,
                "primaryLocale"@,
                Some(found.primary_locale@),
            );
            let accessibility_url = text_now(
                step,
                "accessibilityUrl"@,
                owned(found.accessibility_url),
            );
            let content_rights_declaration = text_now(
                step,
                "contentRightsDeclaration"@,
                owned(found.content_rights_declaration),
            );
            let subscription_status_url = text_now(
                step,
                "subscriptionStatusUrl"@,
                owned(found.subscription_status_url),
            );
            let subscription_status_url_for_sandbox = text_now(
                step,
                "subscriptionStatusUrlForSandbox"@,
                owned(found.subscription_status_url_for_sandbox),
            );
            let streamlined = truth_now(
                step,
                "streamlinedPurchasingEnabled"@,
                found.streamlined_purchasing_enabled,
            );
            &&& source_gives(sync.context, shared.primary_locale, primary_locale)
            &&& shared.primary_locale is None ==> primary_locale == Some(found.primary_locale@)
            &&& source_gives(sync.context, shared.accessibility_url, accessibility_url)
            &&& shared.accessibility_url is None ==> accessibility_url
                == owned(found.accessibility_url)
            &&& shared.content_rights_declaration matches Some(wanted)
                ==> content_rights_declaration == Some(wanted.asc_value_of())
            &&& shared.content_rights_declaration is None ==> content_rights_declaration
                == owned(found.content_rights_declaration)
            &&& source_gives(sync.context, shared.subscription_status_url, subscription_status_url)
            &&& shared.subscription_status_url is None ==> subscription_status_url
                == owned(found.subscription_status_url)
            &&& source_gives(sync.context, shared.subscription_status_url_for_sandbox,
                subscription_status_url_for_sandbox)
            &&& shared.subscription_status_url_for_sandbox is None
                ==> subscription_status_url_for_sandbox
                    == owned(found.subscription_status_url_for_sandbox)
            &&& shared.streamlined_purchasing_enabled is Some ==> streamlined
                == shared.streamlined_purchasing_enabled
            &&& shared.streamlined_purchasing_enabled is None ==> streamlined
                == found.streamlined_purchasing_enabled
            &&& step is None <==> {
                &&& source_gives(sync.context, shared.primary_locale, Some(found.primary_locale@))
                &&& source_gives(sync.context, shared.accessibility_url,
                    owned(found.accessibility_url))
                &&& shared.content_rights_declaration matches Some(wanted)
                    ==> owned(found.content_rights_declaration) == Some(
                    wanted.asc_value_of(),
                )
                &&& source_gives(sync.context, shared.subscription_status_url,
                    owned(found.subscription_status_url))
                &&& source_gives(sync.context, shared.subscription_status_url_for_sandbox,
                    owned(found.subscription_status_url_for_sandbox))
                &&& shared.streamlined_purchasing_enabled is Some
                    ==> found.streamlined_purchasing_enabled
                    == shared.streamlined_purchasing_enabled
            }
            &&& changes_one(step, sync.api.base_url@, "apps"@, app.id@)
        }),
{
    reveal_strlit("primaryLocale");
    reveal_strlit("accessibilityUrl");
    reveal_strlit("contentRightsDeclaration");
    reveal_strlit("subscriptionStatusUrl");
    reveal_strlit("subscriptionStatusUrlForSandbox");
    reveal_strlit("streamlinedPurchasingEnabled");
    assert("primaryLocale"@.len() == 13
        && "accessibilityUrl"@.len() == 16
        && "contentRightsDeclaration"@.len() == 24
        && "subscriptionStatusUrl"@.len() == 21
        && "subscriptionStatusUrlForSandbox"@.len() == 31
        && "streamlinedPurchasingEnabled"@.len() == 28);
    reveal_strlit("/");
    reveal_strlit("/apps");
    reveal_strlit("apps");
    assert("/apps"@ =~= "/"@ + "apps"@);
    let attrs = crate::app_store::reconcile::shared_attrs(sync.context, app, shared);
    let none = Map::<Seq<char>, JsonView>::empty();
    lemma_patch(sync.api, "/apps"@, "apps"@, app.id@, attrs, none);
    if attrs == none {
        assert(!attrs.contains_key("primaryLocale"@));
        assert(!attrs.contains_key("accessibilityUrl"@));
        assert(!attrs.contains_key("contentRightsDeclaration"@));
        assert(!attrs.contains_key("subscriptionStatusUrl"@));
        assert(!attrs.contains_key("subscriptionStatusUrlForSandbox"@));
        assert(!attrs.contains_key("streamlinedPurchasingEnabled"@));
    } else {
        assert(attrs.contains_key("primaryLocale"@)
            || attrs.contains_key("accessibilityUrl"@)
            || attrs.contains_key("contentRightsDeclaration"@)
            || attrs.contains_key("subscriptionStatusUrl"@)
            || attrs.contains_key("subscriptionStatusUrlForSandbox"@)
            || attrs.contains_key("streamlinedPurchasingEnabled"@));
    }
}

/// An app info can be changed before its submission, after a rejection and while it waits for review.
pub open spec fn info_open(info: AppInfo) -> bool {
    info.attributes.state matches Some(state) && (state@ == "PREPARE_FOR_SUBMISSION"@ || state@
        == "DEVELOPER_REJECTED"@ || state@ == "REJECTED"@ || state@ == "READY_FOR_REVIEW"@
        || state@ == "WAITING_FOR_REVIEW"@)
}

/// Once the account has taken the categories that were sent for an app info that can be changed, each
/// category is the wanted one, wherever one is wanted, and stays as it was elsewhere. Nothing is sent
/// just where they are already or cannot be changed.
pub proof fn law_categories_settle(
    sync: AppStoreSync,
    app_key: Seq<char>,
    info: AppInfo,
    categories: AppCategoriesSpec,
    current: CategoryIds,
)
    ensures
        ({
            let step = categories_step(sync, app_key, info, categories, current);
            &&& info_open(info) ==> link_now(
                step,
                "primaryCategory"@,
                "appCategories"@,
                owned(current.primary),
            ) == (if categories.primary is Some {
                owned(categories.primary)
            } else {
                owned(current.primary)
            })
            &&& info_open(info) ==> link_now(
                step,
                "primarySubcategoryOne"@,
                "appCategories"@,
                owned(current.primary_subcategory_one),
            ) == (if categories.primary_subcategory_one is Some {
                owned(categories.primary_subcategory_one)
            } else {
                owned(current.primary_subcategory_one)
            })
            &&& info_open(info) ==> link_now(
                step,
                "primarySubcategoryTwo"@,
                "appCategories"@,
                owned(current.primary_subcategory_two),
            ) == (if categories.primary_subcategory_two is Some {
                owned(categories.primary_subcategory_two)
            } else {
                owned(current.primary_subcategory_two)
            })
            &&& info_open(info) ==> link_now(
                step,
                "secondaryCategory"@,
                "appCategories"@,
                owned(current.secondary),
            ) == (if categories.secondary is Some {
                owned(categories.secondary)
            } else {
                owned(current.secondary)
            })
            &&& info_open(info) ==> link_now(
                step,
                "secondarySubcategoryOne"@,
                "appCategories"@,
                owned(current.secondary_subcategory_one),
            ) == (if categories.secondary_subcategory_one is Some {
                owned(categories.secondary_subcategory_one)
            } else {
                owned(current.secondary_subcategory_one)
            })
            &&& info_open(info) ==> link_now(
                step,
                "secondarySubcategoryTwo"@,
                "appCategories"@,
                owned(current.secondary_subcategory_two),
            ) == (if categories.secondary_subcategory_two is Some {
                owned(categories.secondary_subcategory_two)
            } else {
                owned(current.secondary_subcategory_two)
            })
            &&& step is None <==> (!info_open(info) || {
                &&& has_wanted(owned(categories.primary), owned(current.primary))
                &&& has_wanted(owned(categories.primary_subcategory_one),
                    owned(current.primary_subcategory_one))
                &&& has_wanted(owned(categories.primary_subcategory_two),
                    owned(current.primary_subcategory_two))
                &&& has_wanted(owned(categories.secondary), owned(current.secondary))
                &&& has_wanted(owned(categories.secondary_subcategory_one),
                    owned(current.secondary_subcategory_one))
                &&& has_wanted(owned(categories.secondary_subcategory_two),
                    owned(current.secondary_subcategory_two))
            })
            &&& changes_one(step, sync.api.base_url@, "appInfos"@, info.id@)
        }),
{
    reveal_strlit("primaryCategory");
    reveal_strlit("primarySubcategoryOne");
    reveal_strlit("primarySubcategoryTwo");
    reveal_strlit("secondaryCategory");
    reveal_strlit("secondarySubcategoryOne");
    reveal_strlit("secondarySubcategoryTwo");
    assert("primaryCategory"@.len() == 15
        && "primarySubcategoryOne"@.len() == 21
        && "primarySubcategoryTwo"@.len() == 21
        && "secondaryCategory"@.len() == 17
        && "secondarySubcategoryOne"@.len() == 23
        && "secondarySubcategoryTwo"@.len() == 23
        && "primarySubcategoryOne"@[18] == 'O'
        && "primarySubcategoryTwo"@[18] == 'T'
        && "secondarySubcategoryOne"@[20] == 'O'
        && "secondarySubcategoryTwo"@[20] == 'T');
    reveal_strlit("/");
    reveal_strlit("/appInfos");
    reveal_strlit("appInfos");
    assert("/appInfos"@ =~= "/"@ + "appInfos"@);
    let links = AppStoreApi::category_members(categories);
    lemma_patch(
        sync.api,
        "/appInfos"@,
        "appInfos"@,
        info.id@,
        Map::<Seq<char>, JsonView>::empty(),
        links,
    );
    let request = sync.api.categories_view(info.id@, categories);
    if let Some(id) = categories.primary {
        assert(links["primaryCategory"@] == link_view("appCategories"@, id@));
        assert(sent_link(request, "primaryCategory"@) is Some);
    } else {
        assert(!links.contains_key("primaryCategory"@));
        assert(sent_link(request, "primaryCategory"@) is None);
    }
    if let Some(id) = categories.primary_subcategory_one {
        assert(links["primarySubcategoryOne"@] == link_view("appCategories"@, id@));
        assert(sent_link(request, "primarySubcategoryOne"@) is Some);
    } else {
        assert(!links.contains_key("primarySubcategoryOne"@));
        assert(sent_link(request, "primarySubcategoryOne"@) is None);
    }
    if let Some(id) = categories.primary_subcategory_two {
        assert(links["primarySubcategoryTwo"@] == link_view("appCategories"@, id@));
        assert(sent_link(request, "primarySubcategoryTwo"@) is Some);
    } else {
        assert(!links.contains_key("primarySubcategoryTwo"@));
        assert(sent_link(request, "primarySubcategoryTwo"@) is None);
    }
    if let Some(id) = categories.secondary {
        assert(links["secondaryCategory"@] == link_view("appCategories"@, id@));
        assert(sent_link(request, "secondaryCategory"@) is Some);
    } else {
        assert(!links.contains_key("secondaryCategory"@));
        assert(sent_link(request, "secondaryCategory"@) is None);
    }
    if let Some(id) = categories.secondary_subcategory_one {
        assert(links["secondarySubcategoryOne"@] == link_view("appCategories"@, id@));
        assert(sent_link(request, "secondarySubcategoryOne"@) is Some);
    } else {
        assert(!links.contains_key("secondarySubcategoryOne"@));
        assert(sent_link(request, "secondarySubcategoryOne"@) is None);
    }
    if let Some(id) = categories.secondary_subcategory_two {
        assert(links["secondarySubcategoryTwo"@] == link_view("appCategories"@, id@));
        assert(sent_link(request, "secondarySubcategoryTwo"@) is Some);
    } else {
        assert(!links.contains_key("secondarySubcategoryTwo"@));
        assert(sent_link(request, "secondarySubcategoryTwo"@) is None);
    }
}

/// Once the account has taken the build that was sent, the version has the wanted build. Nothing is
/// sent just where it has it already.
pub proof fn law_builds_settle(
    sync: AppStoreSync,
    app_key: Seq<char>,
    platform: AppPlatform,
    record: AppStoreVersion,
    build_number: Seq<char>,
    build: Build,
)
    ensures
        ({
            let step = build_step(sync, app_key, platform, record, build_number, build);
            let there = match record.relationships {
                Some(relationships) => match relationships.build {
                    Some(relationship) => match relationship.data {
                        Some(data) => Some(data.id@),
                        None => None,
                    },
                    None => None,
                },
                None => None,
            };
            &&& link_now(step, "build"@, "builds"@, there) == Some(build.id@)
            &&& step is None <==> there == Some(build.id@)
            &&& changes_one(step, sync.api.base_url@, "appStoreVersions"@, record.id@)
        }),
{
    reveal_strlit("/");
    reveal_strlit("/appStoreVersions");
    reveal_strlit("appStoreVersions");
    assert("/appStoreVersions"@ =~= "/"@ + "appStoreVersions"@);
    let links = crate::app_store::requests::related("build"@, "builds"@, build.id@);
    lemma_patch(
        sync.api,
        "/appStoreVersions"@,
        "appStoreVersions"@,
        record.id@,
        Map::<Seq<char>, JsonView>::empty(),
        links,
    );
    assert(links["build"@] == link_view("builds"@, build.id@));
    let request = sync.api.changed_version(
        record.id@,
        Map::<Seq<char>, JsonView>::empty(),
        Some(build.id@),
    );
    assert(sent_link(request, "build"@) is Some);
}

/// A new version is of the app and the platform that it is for, has the version string and the release
/// type and date that the configuration gives, and nothing else.
pub proof fn law_new_versions_are_as_configured(
    api: AppStoreApi,
    app_id: Seq<char>,
    platform: AppPlatform,
    spec: AppVersionSpec,
)
    ensures
        ({
            let request = api.new_version(app_id, platform, spec);
            &&& request.verb == Verb::Post
            &&& request.url == api.base_url@ + "/appStoreVersions"@
            &&& told_text(request, "type"@) == Some("appStoreVersions"@)
            &&& told_text(request, "id"@) is None
            &&& sent_link(request, "app"@) == Some((JsonView::Text("apps"@),
                JsonView::Text(app_id)))
            &&& sent(request, "platform"@) == Some(JsonView::Text(platform.asc_value_of()))
            &&& sent(request, "versionString"@) == Some(JsonView::Text(spec.version_string@))
            &&& sent(request, "releaseType"@) == (match spec.release {
                Some(release) => match release.kind {
                    Some(kind) => Some(JsonView::Text(kind.asc_value_of())),
                    None => None,
                },
                None => None,
            })
            &&& sent(request, "earliestReleaseDate"@) == (match spec.release {
                Some(release) => match release.earliest_release_date {
                    Some(date) => Some(JsonView::Text(date@)),
                    None => None,
                },
                None => None,
            })
        }),
{
    reveal_strlit("platform");
    reveal_strlit("versionString");
    reveal_strlit("releaseType");
    reveal_strlit("earliestReleaseDate");
    assert("platform"@.len() == 8
        && "versionString"@.len() == 13
        && "releaseType"@.len() == 11
        && "earliestReleaseDate"@.len() == 19);
    reveal_strlit("/");
    reveal_strlit("/appStoreVersions");
    reveal_strlit("appStoreVersions");
    assert("/appStoreVersions"@ =~= "/"@ + "appStoreVersions"@);
    let links = crate::app_store::requests::related("app"@, "apps"@, app_id);
    lemma_post(
        api,
        "/appStoreVersions"@,
        "appStoreVersions"@,
        AppStoreApi::version_members(platform, spec),
        links,
    );
    assert(links["app"@] == link_view("apps"@, app_id));
    assert(api.base_url@ + "/appStoreVersions"@ =~= api.base_url@ + "/"@ + "appStoreVersions"@);
    let request = api.new_version(app_id, platform, spec);
    assert(sent_link(request, "app"@) is Some);
}

/// Once the account has taken what was sent for a localization of an app info that can be changed,
/// each text is the wanted one, wherever one is wanted. A localization that is not there is created
/// for the app info, with its locale and the wanted texts and no others. Nothing is sent just where all
/// texts are the wanted ones already.
pub proof fn law_info_localizations_settle(
    sync: AppStoreSync,
    app_key: Seq<char>,
    app_info_id: Seq<char>,
    locale: Seq<char>,
    desired: ResolvedAppInfoLocalization,
    existing: Option<AppInfoLocalization>,
)
    ensures
        ({
            let step = info_localization_step(
                sync,
                app_key,
                app_info_id,
                true,
                locale,
                desired,
                existing,
            );
            &&& existing matches Some(found) ==> {
                &&& text_now(step, "name"@, Some(found.attributes.name@))
                    == (if Some(desired.name@) is Some {
                    Some(desired.name@)
                } else {
                    Some(found.attributes.name@)
                })
                &&& text_now(step, "subtitle"@, owned(found.attributes.subtitle))
                    == (if owned(desired.subtitle) is Some {
                    owned(desired.subtitle)
                } else {
                    owned(found.attributes.subtitle)
                })
                &&& text_now(step, "privacyPolicyUrl"@,
                    owned(found.attributes.privacy_policy_url))
                        == (if owned(desired.privacy_policy_url) is Some {
                    owned(desired.privacy_policy_url)
                } else {
                    owned(found.attributes.privacy_policy_url)
                })
                &&& text_now(step, "privacyChoicesUrl"@,
                    owned(found.attributes.privacy_choices_url))
                        == (if owned(desired.privacy_choices_url) is Some {
                    owned(desired.privacy_choices_url)
                } else {
                    owned(found.attributes.privacy_choices_url)
                })
                &&& text_now(step, "privacyPolicyText"@,
                    owned(found.attributes.privacy_policy_text))
                        == (if owned(desired.privacy_policy_text) is Some {
                    owned(desired.privacy_policy_text)
                } else {
                    owned(found.attributes.privacy_policy_text)
                })
                &&& text_now(step, "locale"@, Some(found.attributes.locale@)) == Some(
                    found.attributes.locale@,
                )
                &&& step is None <==> {
                    &&& Some(found.attributes.name@) == Some(desired.name@)
                    &&& owned(found.attributes.subtitle) == owned(desired.subtitle)
                    &&& owned(found.attributes.privacy_policy_url)
                        == owned(desired.privacy_policy_url)
                    &&& owned(found.attributes.privacy_choices_url)
                        == owned(desired.privacy_choices_url)
                    &&& owned(found.attributes.privacy_policy_text)
                        == owned(desired.privacy_policy_text)
                }
                &&& changes_one(step, sync.api.base_url@, "appInfoLocalizations"@, found.id@)
            }
            &&& existing is None ==> {
                &&& step is Some
                &&& text_now(step, "name"@, None) == Some(desired.name@)
                &&& text_now(step, "subtitle"@, None) == owned(desired.subtitle)
                &&& text_now(step, "privacyPolicyUrl"@, None) == owned(desired.privacy_policy_url)
                &&& text_now(step, "privacyChoicesUrl"@, None) == owned(desired.privacy_choices_url)
                &&& text_now(step, "privacyPolicyText"@, None) == owned(desired.privacy_policy_text)
                &&& text_now(step, "locale"@, None) == Some(locale)
                &&& creates_one(
                    step,
                    sync.api.base_url@,
                    "appInfoLocalizations"@,
                    "appInfo"@,
                    "appInfos"@,
                    app_info_id,
                )
            }
        }),
{
    reveal_strlit("name");
    reveal_strlit("subtitle");
    reveal_strlit("privacyPolicyUrl");
    reveal_strlit("privacyChoicesUrl");
    reveal_strlit("privacyPolicyText");
    reveal_strlit("locale");
    assert("name"@.len() == 4
        && "subtitle"@.len() == 8
        && "privacyPolicyUrl"@.len() == 16
        && "privacyChoicesUrl"@.len() == 17
        && "privacyPolicyText"@.len() == 17
        && "locale"@.len() == 6
        && "privacyChoicesUrl"@[7] == 'C'
        && "privacyPolicyText"@[7] == 'P');
    reveal_strlit("/");
    reveal_strlit("/appInfoLocalizations");
    reveal_strlit("appInfoLocalizations");
    assert("/appInfoLocalizations"@ =~= "/"@ + "appInfoLocalizations"@);
    let attrs = desired.attrs();
    let none = Map::<Seq<char>, JsonView>::empty();
    match existing {
        Some(found) => {
            lemma_patch(sync.api, "/appInfoLocalizations"@, "appInfoLocalizations"@,
                found.id@, attrs, none);
        },
        None => {
            let links = crate::app_store::requests::related(
                "appInfo"@,
                "appInfos"@,
                app_info_id,
            );
            let all = attrs.insert("locale"@, JsonView::Text(locale));
            lemma_post(sync.api, "/appInfoLocalizations"@, "appInfoLocalizations"@, all, links);
            assert(links["appInfo"@] == link_view("appInfos"@, app_info_id));
            let request = sync.api.post_view("/appInfoLocalizations"@,
                "appInfoLocalizations"@, all, links);
            assert(sent_link(request, "appInfo"@) is Some);
        },
    }
}

/// Nothing is sent for an app info that cannot be changed.
pub proof fn law_closed_infos_stay(
    sync: AppStoreSync,
    app_key: Seq<char>,
    app_info_id: Seq<char>,
    locale: Seq<char>,
    desired: ResolvedAppInfoLocalization,
    existing: Option<AppInfoLocalization>,
    info: AppInfo,
    declaration: AgeRatingDeclaration,
    answers: OrderedMap<Json>,
)
    ensures
        info_localization_step(sync, app_key, app_info_id, false,
            locale, desired, existing) is None,
        !info_open(info) ==> rating_step(sync, app_key, info, declaration, answers) is None,
{
}

/// Once the account has taken what was sent for a localization of a version that can be changed, each
/// text is the wanted one, wherever one is wanted, and stays as it was elsewhere. A localization that is
/// not there is created for the version, with its locale and the wanted texts and no others. Nothing is
/// sent just where every wanted text is there already.
pub proof fn law_version_localizations_settle(
    api: AppStoreApi,
    app_key: Seq<char>,
    platform: AppPlatform,
    version_id: Seq<char>,
    locale: Seq<char>,
    desired: ResolvedVersionLocalization,
    existing: Option<AppStoreVersionLocalization>,
)
    ensures
        ({
            let step = open_localization_step(
                api,
                app_key,
                platform,
                version_id,
                locale,
                desired,
                true,
                existing,
            );
            &&& existing matches Some(found) ==> {
                &&& text_now(step, "description"@, owned(found.attributes.description))
                    == (if owned(desired.description) is Some {
                    owned(desired.description)
                } else {
                    owned(found.attributes.description)
                })
                &&& text_now(step, "keywords"@, owned(found.attributes.keywords))
                    == (if owned(desired.keywords) is Some {
                    owned(desired.keywords)
                } else {
                    owned(found.attributes.keywords)
                })
                &&& text_now(step, "marketingUrl"@, owned(found.attributes.marketing_url))
                    == (if owned(desired.marketing_url) is Some {
                    owned(desired.marketing_url)
                } else {
                    owned(found.attributes.marketing_url)
                })
                &&& text_now(step, "promotionalText"@, owned(found.attributes.promotional_text))
                    == (if owned(desired.promotional_text) is Some {
                    owned(desired.promotional_text)
                } else {
                    owned(found.attributes.promotional_text)
                })
                &&& text_now(step, "supportUrl"@, owned(found.attributes.support_url))
                    == (if owned(desired.support_url) is Some {
                    owned(desired.support_url)
                } else {
                    owned(found.attributes.support_url)
                })
                &&& text_now(step, "whatsNew"@, owned(found.attributes.whats_new))
                    == (if owned(desired.whats_new) is Some {
                    owned(desired.whats_new)
                } else {
                    owned(found.attributes.whats_new)
                })
                &&& text_now(step, "locale"@, Some(found.attributes.locale@)) == Some(
                    found.attributes.locale@,
                )
                &&& step is None <==> {
                    &&& has_wanted(owned(desired.description), owned(found.attributes.description))
                    &&& has_wanted(owned(desired.keywords), owned(found.attributes.keywords))
                    &&& has_wanted(owned(desired.marketing_url),
                        owned(found.attributes.marketing_url))
                    &&& has_wanted(owned(desired.promotional_text),
                        owned(found.attributes.promotional_text))
                    &&& has_wanted(owned(desired.support_url), owned(found.attributes.support_url))
                    &&& has_wanted(owned(desired.whats_new), owned(found.attributes.whats_new))
                }
                &&& changes_one(step, api.base_url@, "appStoreVersionLocalizations"@, found.id@)
            }
            &&& existing is None ==> {
                &&& step is Some
                &&& text_now(step, "description"@, None) == owned(desired.description)
                &&& text_now(step, "keywords"@, None) == owned(desired.keywords)
                &&& text_now(step, "marketingUrl"@, None) == owned(desired.marketing_url)
                &&& text_now(step, "promotionalText"@, None) == owned(desired.promotional_text)
                &&& text_now(step, "supportUrl"@, None) == owned(desired.support_url)
                &&& text_now(step, "whatsNew"@, None) == owned(desired.whats_new)
                &&& text_now(step, "locale"@, None) == Some(locale)
                &&& creates_one(
                    step,
                    api.base_url@,
                    "appStoreVersionLocalizations"@,
                    "appStoreVersion"@,
                    "appStoreVersions"@,
                    version_id,
                )
            }
        }),
{
    reveal_strlit("description");
    reveal_strlit("keywords");
    reveal_strlit("marketingUrl");
    reveal_strlit("promotionalText");
    reveal_strlit("supportUrl");
    reveal_strlit("whatsNew");
    reveal_strlit("locale");
    assert("description"@.len() == 11
        && "keywords"@.len() == 8
        && "marketingUrl"@.len() == 12
        && "promotionalText"@.len() == 15
        && "supportUrl"@.len() == 10
        && "whatsNew"@.len() == 8
        && "locale"@.len() == 6
        && "keywords"@[0] == 'k'
        && "whatsNew"@[0] == 'w');
    reveal_strlit("/");
    reveal_strlit("/appStoreVersionLocalizations");
    reveal_strlit("appStoreVersionLocalizations");
    assert("/appStoreVersionLocalizations"@ =~= "/"@ + "appStoreVersionLocalizations"@);
    let attrs = desired.attrs();
    let none = Map::<Seq<char>, JsonView>::empty();
    match existing {
        Some(found) => {
            lemma_patch(api, "/appStoreVersionLocalizations"@,
                "appStoreVersionLocalizations"@, found.id@, attrs, none);
        },
        None => {
            let links = crate::app_store::requests::related(
                "appStoreVersion"@,
                "appStoreVersions"@,
                version_id,
            );
            let all = attrs.insert("locale"@, JsonView::Text(locale));
            lemma_post(api, "/appStoreVersionLocalizations"@,
                "appStoreVersionLocalizations"@, all, links);
            assert(links["appStoreVersion"@] == link_view("appStoreVersions"@, version_id));
            let request = api.post_view("/appStoreVersionLocalizations"@,
                "appStoreVersionLocalizations"@, all, links);
            assert(sent_link(request, "appStoreVersion"@) is Some);
        },
    }
}

/// Of a version that is closed nothing but the promotional text is sent, and that just where one is
/// wanted and not there.
pub proof fn law_closed_versions_keep_their_texts(
    api: AppStoreApi,
    app_key: Seq<char>,
    platform: AppPlatform,
    version_id: Seq<char>,
    locale: Seq<char>,
    desired: ResolvedVersionLocalization,
    existing: AppStoreVersionLocalization,
)
    ensures
        ({
            let step = open_localization_step(
                api,
                app_key,
                platform,
                version_id,
                locale,
                desired,
                false,
                Some(existing),
            );
            let found = existing.attributes;
            &&& step is None <==> has_wanted(
                owned(desired.promotional_text),
                owned(found.promotional_text),
            )
            &&& desired.promotional_text is Some ==> text_now(
                step,
                "promotionalText"@,
                owned(found.promotional_text),
            ) == owned(desired.promotional_text)
            &&& text_now(step, "description"@, owned(found.description)) == owned(found.description)
            &&& text_now(step, "keywords"@, owned(found.keywords)) == owned(found.keywords)
            &&& text_now(step, "marketingUrl"@, owned(found.marketing_url))
                == owned(found.marketing_url)
            &&& text_now(step, "supportUrl"@, owned(found.support_url)) == owned(found.support_url)
            &&& text_now(step, "whatsNew"@, owned(found.whats_new)) == owned(found.whats_new)
            &&& changes_one(step, api.base_url@, "appStoreVersionLocalizations"@, existing.id@)
        }),
{
    reveal_strlit("description");
    reveal_strlit("keywords");
    reveal_strlit("marketingUrl");
    reveal_strlit("promotionalText");
    reveal_strlit("supportUrl");
    reveal_strlit("whatsNew");
    assert("description"@.len() == 11
        && "keywords"@.len() == 8
        && "marketingUrl"@.len() == 12
        && "promotionalText"@.len() == 15
        && "supportUrl"@.len() == 10
        && "whatsNew"@.len() == 8
        && "keywords"@[0] == 'k'
        && "whatsNew"@[0] == 'w');
    reveal_strlit("/");
    reveal_strlit("/appStoreVersionLocalizations");
    reveal_strlit("appStoreVersionLocalizations");
    assert("/appStoreVersionLocalizations"@ =~= "/"@ + "appStoreVersionLocalizations"@);
    let part = ResolvedVersionLocalization {
        promotional_text: desired.promotional_text,
        description: None,
        keywords: None,
        marketing_url: None,
        support_url: None,
        whats_new: None,
    };
    lemma_patch(
        api,
        "/appStoreVersionLocalizations"@,
        "appStoreVersionLocalizations"@,
        existing.id@,
        part.attrs(),
        Map::<Seq<char>, JsonView>::empty(),
    );
}

/// Once the account has taken the review details that were sent, each detail is the wanted one,
/// wherever one is wanted, and stays as it was elsewhere. Details that are not there are created for
/// the version. Nothing is sent just where every wanted detail is there already.
pub proof fn law_review_details_settle(
    sync: AppStoreSync,
    app_key: Seq<char>,
    platform: AppPlatform,
    version_id: Seq<char>,
    desired: ResolvedReview,
    existing: Option<AppStoreReviewDetail>,
)
    ensures
        ({
            let step = review_step(
                sync,
                app_key,
                platform,
                version_id,
                desired,
                existing,
            );
            &&& existing matches Some(found) ==> {
                &&& text_now(step, "contactFirstName"@,
                    owned(found.attributes.contact_first_name))
                        == (if owned(desired.contact_first_name) is Some {
                    owned(desired.contact_first_name)
                } else {
                    owned(found.attributes.contact_first_name)
                })
                &&& text_now(step, "contactLastName"@, owned(found.attributes.contact_last_name))
                    == (if owned(desired.contact_last_name) is Some {
                    owned(desired.contact_last_name)
                } else {
                    owned(found.attributes.contact_last_name)
                })
                &&& text_now(step, "contactPhone"@, owned(found.attributes.contact_phone))
                    == (if owned(desired.contact_phone) is Some {
                    owned(desired.contact_phone)
                } else {
                    owned(found.attributes.contact_phone)
                })
                &&& text_now(step, "contactEmail"@, owned(found.attributes.contact_email))
                    == (if owned(desired.contact_email) is Some {
                    owned(desired.contact_email)
                } else {
                    owned(found.attributes.contact_email)
                })
                &&& text_now(step, "demoAccountName"@, owned(found.attributes.demo_account_name))
                    == (if owned(desired.demo_account_name) is Some {
                    owned(desired.demo_account_name)
                } else {
                    owned(found.attributes.demo_account_name)
                })
                &&& text_now(step, "demoAccountPassword"@,
                    owned(found.attributes.demo_account_password))
                        == (if owned(desired.demo_account_password) is Some {
                    owned(desired.demo_account_password)
                } else {
                    owned(found.attributes.demo_account_password)
                })
                &&& text_now(step, "notes"@, owned(found.attributes.notes))
                    == (if owned(desired.notes) is Some {
                    owned(desired.notes)
                } else {
                    owned(found.attributes.notes)
                })
                &&& truth_now(
                    step,
                    "demoAccountRequired"@,
                    found.attributes.demo_account_required,
                ) == (if desired.demo_account_required is Some {
                    desired.demo_account_required
                } else {
                    found.attributes.demo_account_required
                })
                &&& step is None <==> {
                    &&& has_wanted(owned(desired.contact_first_name),
                        owned(found.attributes.contact_first_name))
                    &&& has_wanted(owned(desired.contact_last_name),
                        owned(found.attributes.contact_last_name))
                    &&& has_wanted(owned(desired.contact_phone),
                        owned(found.attributes.contact_phone))
                    &&& has_wanted(owned(desired.contact_email),
                        owned(found.attributes.contact_email))
                    &&& has_wanted(owned(desired.demo_account_name),
                        owned(found.attributes.demo_account_name))
                    &&& has_wanted(owned(desired.demo_account_password),
                        owned(found.attributes.demo_account_password))
                    &&& has_wanted(owned(desired.notes), owned(found.attributes.notes))
                    &&& desired.demo_account_required is Some
                        ==> found.attributes.demo_account_required == desired.demo_account_required
                }
                &&& changes_one(step, sync.api.base_url@, "appStoreReviewDetails"@, found.id@)
            }
            &&& existing is None ==> {
                &&& step is Some
                &&& text_now(step, "contactFirstName"@, None) == owned(desired.contact_first_name)
                &&& text_now(step, "contactLastName"@, None) == owned(desired.contact_last_name)
                &&& text_now(step, "contactPhone"@, None) == owned(desired.contact_phone)
                &&& text_now(step, "contactEmail"@, None) == owned(desired.contact_email)
                &&& text_now(step, "demoAccountName"@, None) == owned(desired.demo_account_name)
                &&& text_now(step, "demoAccountPassword"@, None)
                    == owned(desired.demo_account_password)
                &&& text_now(step, "notes"@, None) == owned(desired.notes)
                &&& truth_now(step, "demoAccountRequired"@, None) == desired.demo_account_required
                &&& creates_one(
                    step,
                    sync.api.base_url@,
                    "appStoreReviewDetails"@,
                    "appStoreVersion"@,
                    "appStoreVersions"@,
                    version_id,
                )
            }
        }),
{
    reveal_strlit("contactFirstName");
    reveal_strlit("contactLastName");
    reveal_strlit("contactPhone");
    reveal_strlit("contactEmail");
    reveal_strlit("demoAccountName");
    reveal_strlit("demoAccountPassword");
    reveal_strlit("notes");
    reveal_strlit("demoAccountRequired");
    assert("contactFirstName"@.len() == 16
        && "contactLastName"@.len() == 15
        && "contactPhone"@.len() == 12
        && "contactEmail"@.len() == 12
        && "demoAccountName"@.len() == 15
        && "demoAccountPassword"@.len() == 19
        && "notes"@.len() == 5
        && "demoAccountRequired"@.len() == 19
        && "contactLastName"@[0] == 'c'
        && "demoAccountName"@[0] == 'd'
        && "contactPhone"@[7] == 'P'
        && "contactEmail"@[7] == 'E'
        && "demoAccountPassword"@[11] == 'P'
        && "demoAccountRequired"@[11] == 'R');
    reveal_strlit("/");
    reveal_strlit("/appStoreReviewDetails");
    reveal_strlit("appStoreReviewDetails");
    assert("/appStoreReviewDetails"@ =~= "/"@ + "appStoreReviewDetails"@);
    let attrs = desired.attrs();
    let none = Map::<Seq<char>, JsonView>::empty();
    match existing {
        Some(found) => {
            lemma_patch(sync.api, "/appStoreReviewDetails"@, "appStoreReviewDetails"@,
                found.id@, attrs, none);
        },
        None => {
            let links = crate::app_store::requests::related(
                "appStoreVersion"@,
                "appStoreVersions"@,
                version_id,
            );
            let all = attrs;
            lemma_post(sync.api, "/appStoreReviewDetails"@, "appStoreReviewDetails"@, all, links);
            assert(links["appStoreVersion"@] == link_view("appStoreVersions"@, version_id));
            let request = sync.api.post_view("/appStoreReviewDetails"@,
                "appStoreReviewDetails"@, all, links);
            assert(sent_link(request, "appStoreVersion"@) is Some);
        },
    }
}

/// A set of screenshots that is not there is replaced: the old one is deleted, where there is one, and a new
/// one of the same type is created for the localization. One that is there stays.
pub proof fn law_screenshot_sets_are_replaced(
    sync: AppStoreSync,
    place: Seq<char>,
    localization_id: Seq<char>,
    set: MediaScreenshotSet,
    existing: Option<&MediaSet>,
    there: bool,
)
    ensures
        ({
            let step = screenshots_step(sync, place, localization_id, set, existing, there);
            &&& step is None <==> there
            &&& step matches Some(todo) ==> {
                let made = todo.requests.last();
                &&& todo.change.kind == ChangeKind::Replace
                &&& todo.requests.len() == (if existing is Some {
                    2int
                } else {
                    1
                })
                &&& existing matches Some(old_set) ==> todo.requests[0].verb == Verb::Delete
                    && todo.requests[0].url
                        == sync.api.base_url@ + "/appScreenshotSets/"@ + old_set.id@
                &&& made.verb == Verb::Post
                &&& made.url == sync.api.base_url@ + "/appScreenshotSets"@
                &&& told_text(made, "type"@) == Some("appScreenshotSets"@)
                &&& sent(made, "screenshotDisplayType"@)
                    == Some(JsonView::Text(set.asc_display_type_of()))
                &&& sent_link(made, "appStoreVersionLocalization"@) == Some(
                    (
                        JsonView::Text("appStoreVersionLocalizations"@),
                        JsonView::Text(localization_id),
                    ),
                )
            }
        }),
{
    reveal_strlit("/");
    reveal_strlit("/appScreenshotSets");
    reveal_strlit("appScreenshotSets");
    assert("/appScreenshotSets"@ =~= "/"@ + "appScreenshotSets"@);
    reveal_strlit("/appScreenshotSets/");
    let links = crate::app_store::requests::related(
        "appStoreVersionLocalization"@,
        "appStoreVersionLocalizations"@,
        localization_id,
    );
    let attrs = Map::<Seq<char>, JsonView>::empty().insert(
        "screenshotDisplayType"@,
        JsonView::Text(set.asc_display_type_of()),
    );
    lemma_post(sync.api, "/appScreenshotSets"@, "appScreenshotSets"@, attrs, links);
    assert(links["appStoreVersionLocalization"@] == link_view(
        "appStoreVersionLocalizations"@,
        localization_id,
    ));
    let request = sync.api.post_view("/appScreenshotSets"@, "appScreenshotSets"@, attrs, links);
    assert(sent_link(request, "appStoreVersionLocalization"@) is Some);
    assert(sync.api.base_url@ + "/appScreenshotSets"@ =~= sync.api.base_url@ + "/"@ + "appScreenshotSets"@);
    if let Some(old_set) = existing {
        lemma_endpoint(sync.api.base_url@, "/appScreenshotSets/"@ + old_set.id@);
        assert(sync.api.base_url@ + ("/appScreenshotSets/"@ + old_set.id@) =~= sync.api.base_url@
            + "/appScreenshotSets/"@ + old_set.id@);
    }
}

/// A set of app previews that is not there is replaced: the old one is deleted, where there is one, and a new
/// one of the same type is created for the localization. One that is there stays.
pub proof fn law_preview_sets_are_replaced(
    sync: AppStoreSync,
    place: Seq<char>,
    localization_id: Seq<char>,
    set: MediaPreviewSet,
    existing: Option<&MediaSet>,
    there: bool,
)
    ensures
        ({
            let step = previews_step(sync, place, localization_id, set, existing, there);
            &&& step is None <==> there
            &&& step matches Some(todo) ==> {
                let made = todo.requests.last();
                &&& todo.change.kind == ChangeKind::Replace
                &&& todo.requests.len() == (if existing is Some {
                    2int
                } else {
                    1
                })
                &&& existing matches Some(old_set) ==> todo.requests[0].verb == Verb::Delete
                    && todo.requests[0].url
                        == sync.api.base_url@ + "/appPreviewSets/"@ + old_set.id@
                &&& made.verb == Verb::Post
                &&& made.url == sync.api.base_url@ + "/appPreviewSets"@
                &&& told_text(made, "type"@) == Some("appPreviewSets"@)
                &&& sent(made, "previewType"@) == Some(JsonView::Text(set.asc_preview_type_of()))
                &&& sent_link(made, "appStoreVersionLocalization"@) == Some(
                    (
                        JsonView::Text("appStoreVersionLocalizations"@),
                        JsonView::Text(localization_id),
                    ),
                )
            }
        }),
{
    reveal_strlit("/");
    reveal_strlit("/appPreviewSets");
    reveal_strlit("appPreviewSets");
    assert("/appPreviewSets"@ =~= "/"@ + "appPreviewSets"@);
    reveal_strlit("/appPreviewSets/");
    let links = crate::app_store::requests::related(
        "appStoreVersionLocalization"@,
        "appStoreVersionLocalizations"@,
        localization_id,
    );
    let attrs = Map::<Seq<char>, JsonView>::empty().insert(
        "previewType"@,
        JsonView::Text(set.asc_preview_type_of()),
    );
    lemma_post(sync.api, "/appPreviewSets"@, "appPreviewSets"@, attrs, links);
    assert(links["appStoreVersionLocalization"@] == link_view(
        "appStoreVersionLocalizations"@,
        localization_id,
    ));
    let request = sync.api.post_view("/appPreviewSets"@, "appPreviewSets"@, attrs, links);
    assert(sent_link(request, "appStoreVersionLocalization"@) is Some);
    assert(sync.api.base_url@ + "/appPreviewSets"@ =~= sync.api.base_url@ + "/"@ + "appPreviewSets"@);
    if let Some(old_set) = existing {
        lemma_endpoint(sync.api.base_url@, "/appPreviewSets/"@ + old_set.id@);
        assert(sync.api.base_url@ + ("/appPreviewSets/"@ + old_set.id@) =~= sync.api.base_url@
            + "/appPreviewSets/"@ + old_set.id@);
    }
}

/// Attachments that are not the wanted ones are all deleted, each by its id; wanted ones stay.
pub proof fn law_attachments_are_cleared(
    sync: AppStoreSync,
    place: Seq<char>,
    current: Seq<MediaAsset>,
    there: bool,
)
    ensures
        ({
            let step = attachments_step(sync, place, current, there);
            &&& step is None <==> there
            &&& step matches Some(todo) ==> {
                &&& todo.change.kind == ChangeKind::Replace
                &&& todo.requests.len() == current.len()
                &&& forall|i: int|
                    0 <= i < current.len() ==> (#[trigger] todo.requests[i]).verb == Verb::Delete
                        && todo.requests[i].url == sync.api.base_url@
                        + "/appStoreReviewAttachments/"@ + current[i].id@
            }
        }),
{
    reveal_strlit("/appStoreReviewAttachments/");
    if !there {
        let todo = attachments_step(sync, place, current, there)->0;
        assert forall|i: int| 0 <= i < current.len() implies (
        #[trigger] todo.requests[i]).verb == Verb::Delete && todo.requests[i].url
            == sync.api.base_url@ + "/appStoreReviewAttachments/"@ + current[i].id@ by {
            let path = "/appStoreReviewAttachments/"@ + current[i].id@;
            lemma_endpoint(sync.api.base_url@, path);
            assert(sync.api.base_url@ + path =~= sync.api.base_url@
                + "/appStoreReviewAttachments/"@ + current[i].id@);
        }
    }
}

/// Once the account has taken the age rating that was sent for an app info that can be changed, every
/// answer stands under its name in camel case, and answers that the configuration does not give are
/// not sent. Nothing is sent just where every answer is there already.
pub proof fn law_age_ratings_settle(
    sync: AppStoreSync,
    app_key: Seq<char>,
    info: AppInfo,
    declaration: AgeRatingDeclaration,
    answers: OrderedMap<Json>,
)
    requires
        info_open(info),
        forall|i: int, j: int|
            #![trigger answers.entries()[i], answers.entries()[j]]
            0 <= i < j < answers.entries().len() ==> camel(answers.entries()[i].0).0 != camel(
                answers.entries()[j].0,
            ).0,
    ensures
        ({
            let step = rating_step(sync, app_key, info, declaration, answers);
            let there = all_members(declaration.attributes);
            &&& step is None <==> forall|i: int|
                0 <= i < answers.entries().len() ==> listed(
                    there,
                    camel((#[trigger] answers.entries()[i]).0).0,
                ) == Some(answers.entries()[i].1@)
            &&& step matches Some(todo) ==> {
                &&& forall|i: int|
                    0 <= i < answers.entries().len() ==> sent(
                        todo.requests[0],
                        camel((#[trigger] answers.entries()[i]).0).0,
                    ) == Some(answers.entries()[i].1@)
                &&& forall|key: Seq<char>|
                    (#[trigger] sent(todo.requests[0], key)) is Some ==> exists|i: int|
                        0 <= i < answers.entries().len() && camel(
                            (#[trigger] answers.entries()[i]).0,
                        ).0 == key
            }
            &&& changes_one(step, sync.api.base_url@, "ageRatingDeclarations"@, declaration.id@)
        }),
{
    reveal_strlit("/");
    reveal_strlit("/ageRatingDeclarations");
    reveal_strlit("ageRatingDeclarations");
    assert("/ageRatingDeclarations"@ =~= "/"@ + "ageRatingDeclarations"@);
    let attrs = rating_attrs(answers);
    let entries = answers.entries();
    lemma_rating_members(entries, entries.len());
    lemma_patch(
        sync.api,
        "/ageRatingDeclarations"@,
        "ageRatingDeclarations"@,
        declaration.id@,
        attrs,
        Map::<Seq<char>, JsonView>::empty(),
    );
    let there = all_members(declaration.attributes);
    if attrs.submap_of(there) {
        assert forall|i: int| 0 <= i < entries.len() implies listed(
            there,
            camel((#[trigger] entries[i]).0).0,
        ) == Some(entries[i].1@) by {
            let key = camel(entries[i].0).0;
            assert(attrs.dom().contains(key));
            assert(there.dom().contains(key));
        }
    } else {
        let key = choose|key: Seq<char>| #[trigger]
            attrs.dom().contains(key) && !(there.dom().contains(key) && there[key] == attrs[key]);
        let i = choose|i: int| 0 <= i < entries.len() && camel((#[trigger] entries[i]).0).0 == key;
        assert(listed(there, camel(entries[i].0).0) != Some(entries[i].1@));
    }
    let request = sync.api.age_rating_view(declaration.id@, answers);
    assert forall|key: Seq<char>| (#[trigger] sent(request, key)) is Some implies exists|i: int|
        0 <= i < entries.len() && camel((#[trigger] entries[i]).0).0 == key by {
        assert(attrs.dom().contains(key));
    }
}

proof fn lemma_rating_members(entries: Seq<(Seq<char>, Json)>, n: nat)
    requires
        n <= entries.len(),
        forall|i: int, j: int|
            #![trigger entries[i], entries[j]]
            0 <= i < j < entries.len() ==> camel(entries[i].0).0 != camel(entries[j].0).0,
    ensures
        forall|i: int|
            0 <= i < n ==> {
                let key = camel((#[trigger] entries[i]).0).0;
                rating_members(entries, n).contains_key(key) && rating_members(entries, n)[key]
                    == entries[i].1@
            },
        forall|key: Seq<char>| #[trigger]
            rating_members(entries, n).dom().contains(key) ==> exists|i: int|
                0 <= i < n && camel((#[trigger] entries[i]).0).0 == key,
    decreases n,
{
    if n > 0 {
        lemma_rating_members(entries, (n - 1) as nat);
        let before = rating_members(entries, (n - 1) as nat);
        assert forall|key: Seq<char>| #[trigger]
            rating_members(entries, n).dom().contains(key) implies exists|i: int|
            0 <= i < n && camel((#[trigger] entries[i]).0).0 == key by {
            if key == camel(entries[n - 1].0).0 {
            } else {
                assert(before.dom().contains(key));
            }
        }
    }
}

/// A name without underscores is its own camel case, and of two words the second one begins with a
/// capital.
pub proof fn law_camel_case(a: Seq<char>, c: char, b: Seq<char>)
    requires
        !a.contains('_'),
        c != '_',
        !b.contains('_'),
    ensures
        camel(a) == (a, false),
        camel(a + seq!['_', c] + b) == (a + capital(c) + b, false),
{
    lemma_camel_plain(a);
    let start = a + seq!['_', c];
    assert(start.drop_last() =~= a.push('_'));
    assert(a.push('_').drop_last() =~= a);
    assert(camel(a.push('_')) == (a, true));
    assert(camel(start) == (a + capital(c), false));
    lemma_camel_more(start, b);
}

proof fn lemma_camel_plain(a: Seq<char>)
    requires
        !a.contains('_'),
    ensures
        camel(a) == (a, false),
    decreases a.len(),
{
    if a.len() > 0 {
        assert forall|i: int| 0 <= i < a.drop_last().len() implies a.drop_last()[i] != '_' by {
            assert(a[i] != '_');
        }
        lemma_camel_plain(a.drop_last());
        assert(a[a.len() - 1] != '_');
        assert(a.drop_last().push(a.last()) =~= a);
    }
}

proof fn lemma_camel_more(start: Seq<char>, b: Seq<char>)
    requires
        !camel(start).1,
        !b.contains('_'),
    ensures
        camel(start + b) == (camel(start).0 + b, false),
    decreases b.len(),
{
    if b.len() == 0 {
        assert(start + b =~= start);
        assert(camel(start).0 + b =~= camel(start).0);
    } else {
        assert forall|i: int| 0 <= i < b.drop_last().len() implies b.drop_last()[i] != '_' by {
            assert(b[i] != '_');
        }
        lemma_camel_more(start, b.drop_last());
        assert((start + b).drop_last() =~= start + b.drop_last());
        assert(b[b.len() - 1] != '_');
        assert((camel(start).0 + b.drop_last()).push(b.last()) =~= camel(start).0 + b);
    }
}

} // verus!
