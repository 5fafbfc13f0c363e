//! The requests of the store side of the API.

use vstd::prelude::*;
use vstd::string::*;
use crate::api::{
    bare, bare_view, body_view, build_resource_request, link, link_view, resource_view, with_body,
    ApiRequest, RequestView, Verb,
};
use crate::app_store::rating::{age_rating_attrs, rating_attrs};
use crate::app_store::resolve::{
    ResolvedAppInfoLocalization, ResolvedReview, ResolvedVersionLocalization,
};
use crate::app_store::{
    has_state, is_state, related_to, relationship_id, AppStoreVersion, Build, MediaSet,
    ReviewSubmission, ReviewSubmissionItem,
};
use crate::asc::{asc_endpoint, endpoint};
use crate::config::{AppCategoriesSpec, AppPlatform, AppVersionSpec};
use crate::json::{text, Json, JsonView, Members};
use crate::ordered::OrderedMap;
use crate::text::{
    as_deref, cat, cat3, decimal, decimal_text, failure, given, owned, same, Error,
};

verus! {

/// Members of an object.
pub type MembersView = Map<Seq<char>, JsonView>;

/// No members.
pub open spec fn no_members() -> MembersView {
    Map::empty()
}

/// Members with one more text, where it is given.
pub open spec fn with_text(members: MembersView, key: Seq<char>, value: Option<Seq<char>>) ->
    MembersView {
    match value {
        Some(text) => members.insert(key, JsonView::Text(text)),
        None => members,
    }
}

/// Adds a text where it is given.
pub fn insert_optional(attrs: &mut Members, key: &str, value: Option<&str>)
    ensures
        final(attrs)@ == with_text(old(attrs)@, key@, given(value)),
{
    if let Some(found) = value {
        attrs.put(key, text(found));
    }
}

/// Members with one more category, where it is given.
pub open spec fn with_category(members: MembersView, key: Seq<char>, id: Option<Seq<char>>) ->
    MembersView {
    match id {
        Some(text) => members.insert(key, link_view("appCategories"@, text)),
        None => members,
    }
}

/// Adds a category where it is given.
pub fn insert_category_relationship(relationships: &mut Members, key: &str, id: Option<&str>)
    ensures
        final(relationships)@ == with_category(old(relationships)@, key@, given(id)),
{
    if let Some(found) = id {
        relationships.put(key, link("appCategories", found));
    }
}

/// An object with one member.
pub fn map_with(key: &str, value: Json) -> (members: Members)
    ensures
        members@ == no_members().insert(key@, value@),
{
    let mut members = Members::new();
    members.put(key, value);
    members
}

/// A relationship to one resource.
pub open spec fn related(key: Seq<char>, kind: Seq<char>, id: Seq<char>) -> MembersView {
    no_members().insert(key, link_view(kind, id))
}

/// A relationship to one resource.
pub fn relation(key: &str, kind: &str, id: &str) -> (members: Members)
    ensures
        members@ == related(key@, kind@, id@),
{
    map_with(key, link(kind, id))
}

impl ResolvedAppInfoLocalization {
    /// The attributes of an app info localization.
    pub open spec fn attrs(self) -> MembersView {
        let name = no_members().insert("name"@, JsonView::Text(self.name@));
        let subtitle = with_text(name, "subtitle"@, owned(self.subtitle));
        let policy = with_text(subtitle, "privacyPolicyUrl"@, owned(self.privacy_policy_url));
        let choices = with_text(policy, "privacyChoicesUrl"@, owned(self.privacy_choices_url));
        with_text(choices, "privacyPolicyText"@, owned(self.privacy_policy_text))
    }
}

/// The attributes of an app info localization.
pub fn app_info_localization_attrs(desired: &ResolvedAppInfoLocalization) -> (attrs: Members)
    ensures
        attrs@ == desired.attrs(),
{
    let mut attrs = map_with("name", text(desired.name.as_str()));
    insert_optional(&mut attrs, "subtitle", as_deref(&desired.subtitle));
    insert_optional(&mut attrs, "privacyPolicyUrl", as_deref(&desired.privacy_policy_url));
    insert_optional(&mut attrs, "privacyChoicesUrl", as_deref(&desired.privacy_choices_url));
    insert_optional(&mut attrs, "privacyPolicyText", as_deref(&desired.privacy_policy_text));
    attrs
}

impl ResolvedVersionLocalization {
    /// The attributes of a version localization.
    pub open spec fn attrs(self) -> MembersView {
        let description = with_text(no_members(), "description"@, owned(self.description));
        let keywords = with_text(description, "keywords"@, owned(self.keywords));
        let marketing = with_text(keywords, "marketingUrl"@, owned(self.marketing_url));
        let promotional = with_text(marketing, "promotionalText"@, owned(self.promotional_text));
        let support = with_text(promotional, "supportUrl"@, owned(self.support_url));
        with_text(support, "whatsNew"@, owned(self.whats_new))
    }
}

/// The attributes of a version localization.
pub fn version_localization_attrs(desired: &ResolvedVersionLocalization) -> (attrs: Members)
    ensures
        attrs@ == desired.attrs(),
{
    let mut attrs = Members::new();
    insert_optional(&mut attrs, "description", as_deref(&desired.description));
    insert_optional(&mut attrs, "keywords", as_deref(&desired.keywords));
    insert_optional(&mut attrs, "marketingUrl", as_deref(&desired.marketing_url));
    insert_optional(&mut attrs, "promotionalText", as_deref(&desired.promotional_text));
    insert_optional(&mut attrs, "supportUrl", as_deref(&desired.support_url));
    insert_optional(&mut attrs, "whatsNew", as_deref(&desired.whats_new));
    attrs
}

impl ResolvedReview {
    /// The attributes of review details.
    pub open spec fn attrs(self) -> MembersView {
        let first = with_text(no_members(), "contactFirstName"@, owned(self.contact_first_name));
        let last = with_text(first, "contactLastName"@, owned(self.contact_last_name));
        let phone = with_text(last, "contactPhone"@, owned(self.contact_phone));
        let email = with_text(phone, "contactEmail"@, owned(self.contact_email));
        let name = with_text(email, "demoAccountName"@, owned(self.demo_account_name));
        let password = with_text(
            name,
            "demoAccountPassword"@,
            owned(self.demo_account_password),
        );
        let required = match self.demo_account_required {
            Some(value) => password.insert("demoAccountRequired"@, JsonView::Bool(value)),
            None => password,
        };
        with_text(required, "notes"@, owned(self.notes))
    }
}

/// The attributes of review details.
pub fn review_attrs(desired: &ResolvedReview) -> (attrs: Members)
    ensures
        attrs@ == desired.attrs(),
{
    let mut attrs = Members::new();
    insert_optional(&mut attrs, "contactFirstName", as_deref(&desired.contact_first_name));
    insert_optional(&mut attrs, "contactLastName", as_deref(&desired.contact_last_name));
    insert_optional(&mut attrs, "contactPhone", as_deref(&desired.contact_phone));
    insert_optional(&mut attrs, "contactEmail", as_deref(&desired.contact_email));
    insert_optional(&mut attrs, "demoAccountName", as_deref(&desired.demo_account_name));
    insert_optional(&mut attrs, "demoAccountPassword", as_deref(&desired.demo_account_password));
    if let Some(value) = desired.demo_account_required {
        attrs.put("demoAccountRequired", Json::Bool(value));
    }
    insert_optional(&mut attrs, "notes", as_deref(&desired.notes));
    attrs
}

/// The attributes of a file that is about to be sent.
pub open spec fn file_members(name: Seq<char>, size: nat) -> MembersView {
    no_members().insert("fileName"@, JsonView::Text(name)).insert(
        "fileSize"@,
        JsonView::Number(decimal(size)),
    )
}

/// The attributes of a file that is about to be sent.
pub fn file_attrs(file_name: &str, file_size: usize) -> (attrs: Members)
    ensures
        attrs@ == file_members(file_name@, file_size as nat),
{
    let mut attrs = map_with("fileName", text(file_name));
    attrs.put("fileSize", Json::Number(decimal_text(file_size as u64)));
    attrs
}

/// The attributes of a file that was sent.
pub open spec fn uploaded_members(checksum: Seq<char>) -> MembersView {
    no_members().insert("sourceFileChecksum"@, JsonView::Text(checksum)).insert(
        "uploaded"@,
        JsonView::Bool(true),
    )
}

/// The attributes of a file that was sent.
pub fn uploaded_attrs(checksum: &str) -> (attrs: Members)
    ensures
        attrs@ == uploaded_members(checksum@),
{
    let mut attrs = map_with("sourceFileChecksum", text(checksum));
    attrs.put("uploaded", Json::Bool(true));
    attrs
}

/// The kinds of files that are sent in parts.
#[derive(Debug, Clone, Copy, PartialEq, Eq, Structural)]
pub enum AssetKind {
    Screenshot,
    Preview,
    ReviewAttachment,
}

impl AssetKind {
    /// The resource type, the relationship of its owner and the owner's resource type.
    pub open spec fn names(self) -> (Seq<char>, Seq<char>, Seq<char>) {
        match self {
            AssetKind::Screenshot => (
                "appScreenshots"@,
                "appScreenshotSet"@,
                "appScreenshotSets"@,
            ),
            AssetKind::Preview => ("appPreviews"@, "appPreviewSet"@, "appPreviewSets"@),
            AssetKind::ReviewAttachment => (
                "appStoreReviewAttachments"@,
                "appStoreReviewDetail"@,
                "appStoreReviewDetails"@,
            ),
        }
    }

    /// The resource type.
    pub fn kind(self) -> (name: &'static str)
        ensures
            name@ == self.names().0,
    {
        match self {
            AssetKind::Screenshot => "appScreenshots",
            AssetKind::Preview => "appPreviews",
            AssetKind::ReviewAttachment => "appStoreReviewAttachments",
        }
    }

    fn owner_key(self) -> (name: &'static str)
        ensures
            name@ == self.names().1,
    {
        match self {
            AssetKind::Screenshot => "appScreenshotSet",
            AssetKind::Preview => "appPreviewSet",
            AssetKind::ReviewAttachment => "appStoreReviewDetail",
        }
    }

    fn owner_kind(self) -> (name: &'static str)
        ensures
            name@ == self.names().2,
    {
        match self {
            AssetKind::Screenshot => "appScreenshotSets",
            AssetKind::Preview => "appPreviewSets",
            AssetKind::ReviewAttachment => "appStoreReviewDetails",
        }
    }
}

/// The requests of the store side of the API, for one base address.
#[derive(Debug)]
pub struct AppStoreApi {
    pub base_url: String,
}

impl AppStoreApi {
    /// The request for a path.
    pub open spec fn get_view(self, path: Seq<char>) -> RequestView {
        bare_view(Verb::Get, endpoint(self.base_url@, path))
    }

    /// The request that deletes what is at a path.
    pub open spec fn delete_view(self, path: Seq<char>) -> RequestView {
        bare_view(Verb::Delete, endpoint(self.base_url@, path))
    }

    /// The request that creates a resource.
    pub open spec fn post_view(
        self,
        path: Seq<char>,
        kind: Seq<char>,
        attributes: MembersView,
        relationships: MembersView,
    ) -> RequestView {
        body_view(
            Verb::Post,
            endpoint(self.base_url@, path),
            resource_view(None, kind, attributes, relationships),
        )
    }

    /// The request that changes a resource.
    pub open spec fn patch_view(
        self,
        path: Seq<char>,
        kind: Seq<char>,
        id: Seq<char>,
        attributes: MembersView,
        relationships: MembersView,
    ) -> RequestView {
        body_view(
            Verb::Patch,
            endpoint(self.base_url@, path + "/"@ + id),
            resource_view(Some(id), kind, attributes, relationships),
        )
    }

    /// Asks for what is at a path.
    pub fn get(&self, path: &str) -> (request: ApiRequest)
        ensures
            request@ == self.get_view(path@),
    {
        bare(Verb::Get, asc_endpoint(self.base_url.as_str(), path))
    }

    /// Deletes what is at a path.
    pub fn delete(&self, path: &str) -> (request: ApiRequest)
        ensures
            request@ == self.delete_view(path@),
    {
        bare(Verb::Delete, asc_endpoint(self.base_url.as_str(), path))
    }

    /// Creates a resource.
    pub fn post_resource(
        &self,
        path: &str,
        kind: &str,
        attributes: Members,
        relationships: Members,
    ) -> (request: ApiRequest)
        ensures
            request@ == self.post_view(path@, kind@, attributes@, relationships@),
    {
        with_body(
            Verb::Post,
            asc_endpoint(self.base_url.as_str(), path),
            build_resource_request(None, kind, attributes, relationships),
        )
    }

    /// Changes a resource.
    pub fn patch_resource(
        &self,
        path: &str,
        kind: &str,
        id: &str,
        attributes: Members,
        relationships: Members,
    ) -> (request: ApiRequest)
        ensures
            request@ == self.patch_view(path@, kind@, id@, attributes@, relationships@),
    {
        with_body(
            Verb::Patch,
            asc_endpoint(self.base_url.as_str(), cat3(path, "/", id).as_str()),
            build_resource_request(Some(id), kind, attributes, relationships),
        )
    }

    /// Asks for one resource.
    pub fn get_instance(&self, path: &str, id: &str) -> (request: ApiRequest)
        ensures
            request@ == self.get_view(path@ + "/"@ + id@),
    {
        self.get(cat3(path, "/", id).as_str())
    }

    /// Changes an app record.
    pub fn update_app(&self, app_id: &str, attributes: Members) -> (request: ApiRequest)
        ensures
            request@ == self.patch_view("/apps"@, "apps"@, app_id@, attributes@, no_members()),
    {
        self.patch_resource("/apps", "apps", app_id, attributes, Members::new())
    }

    /// Asks for the app infos of an app.
    pub fn list_app_infos(&self, app_id: &str) -> (request: ApiRequest)
        ensures
            request@ == self.get_view("/apps/"@ + app_id@ + "/appInfos"@).asking(
                "fields[appInfos]"@,
                "state,appInfoLocalizations,ageRatingDeclaration,primaryCategory,primarySubcategoryOne,primarySubcategoryTwo,secondaryCategory,secondarySubcategoryOne,secondarySubcategoryTwo"@,
            ).asking("limit"@, "50"@),
    {
        self.get(cat3("/apps/", app_id, "/appInfos").as_str()).ask(
            "fields[appInfos]",
            "state,appInfoLocalizations,ageRatingDeclaration,primaryCategory,primarySubcategoryOne,primarySubcategoryTwo,secondaryCategory,secondarySubcategoryOne,secondarySubcategoryTwo",
        ).ask("limit", "50")
    }

    /// The relationships of chosen categories.
    pub open spec fn category_members(categories: AppCategoriesSpec) -> MembersView {
        let a = with_category(no_members(), "primaryCategory"@, owned(categories.primary));
        let b = with_category(
            a,
            "primarySubcategoryOne"@,
            owned(categories.primary_subcategory_one),
        );
        let c = with_category(
            b,
            "primarySubcategoryTwo"@,
            owned(categories.primary_subcategory_two),
        );
        let d = with_category(c, "secondaryCategory"@, owned(categories.secondary));
        let e = with_category(
            d,
            "secondarySubcategoryOne"@,
            owned(categories.secondary_subcategory_one),
        );
        with_category(e, "secondarySubcategoryTwo"@, owned(categories.secondary_subcategory_two))
    }

    /// The request that changes the categories of an app info.
    pub open spec fn categories_view(self, id: Seq<char>, categories: AppCategoriesSpec) ->
        RequestView {
        self.patch_view(
            "/appInfos"@,
            "appInfos"@,
            id,
            no_members(),
            AppStoreApi::category_members(categories),
        )
    }

    /// Changes the categories of an app info.
    pub fn update_app_info_categories(
        &self,
        app_info_id: &str,
        categories: &AppCategoriesSpec,
    ) -> (request: ApiRequest)
        ensures
            request@ == self.categories_view(app_info_id@, *categories),
    {
        let mut relationships = Members::new();
        insert_category_relationship(
            &mut relationships,
            "primaryCategory",
            as_deref(&categories.primary),
        );
        insert_category_relationship(
            &mut relationships,
            "primarySubcategoryOne",
            as_deref(&categories.primary_subcategory_one),
        );
        insert_category_relationship(
            &mut relationships,
            "primarySubcategoryTwo",
            as_deref(&categories.primary_subcategory_two),
        );
        insert_category_relationship(
            &mut relationships,
            "secondaryCategory",
            as_deref(&categories.secondary),
        );
        insert_category_relationship(
            &mut relationships,
            "secondarySubcategoryOne",
            as_deref(&categories.secondary_subcategory_one),
        );
        insert_category_relationship(
            &mut relationships,
            "secondarySubcategoryTwo",
            as_deref(&categories.secondary_subcategory_two),
        );
        self.patch_resource(
            "/appInfos",
            "appInfos",
            app_info_id,
            Members::new(),
            relationships,
        )
    }

    /// Asks which resource an app info is related to under a key.
    pub fn get_related_id(&self, app_info_id: &str, key: &str) -> (request: ApiRequest)
        ensures
            request@ == self.get_view("/appInfos/"@ + app_info_id@ + "/relationships/"@ + key@),
    {
        self.get(cat3("/appInfos/", app_info_id, "/relationships/").concat(key).as_str())
    }

    /// Asks for the localizations of an app info.
    pub fn list_app_info_localizations(&self, app_info_id: &str) -> (request: ApiRequest)
        ensures
            request@ == self.get_view(
                "/appInfos/"@ + app_info_id@ + "/appInfoLocalizations"@,
            ).asking(
                "fields[appInfoLocalizations]"@,
                "locale,name,subtitle,privacyPolicyUrl,privacyChoicesUrl,privacyPolicyText"@,
            ).asking("limit"@, "50"@),
    {
        self.get(cat3("/appInfos/", app_info_id, "/appInfoLocalizations").as_str()).ask(
            "fields[appInfoLocalizations]",
            "locale,name,subtitle,privacyPolicyUrl,privacyChoicesUrl,privacyPolicyText",
        ).ask("limit", "50")
    }

    /// The request that creates an app info localization.
    pub open spec fn new_app_info_localization(
        self,
        app_info_id: Seq<char>,
        locale: Seq<char>,
        desired: ResolvedAppInfoLocalization,
    ) -> RequestView {
        self.post_view(
            "/appInfoLocalizations"@,
            "appInfoLocalizations"@,
            desired.attrs().insert("locale"@, JsonView::Text(locale)),
            related("appInfo"@, "appInfos"@, app_info_id),
        )
    }

    /// Creates an app info localization.
    pub fn create_app_info_localization(
        &self,
        app_info_id: &str,
        locale: &str,
        desired: &ResolvedAppInfoLocalization,
    ) -> (request: ApiRequest)
        ensures
            request@ == self.new_app_info_localization(app_info_id@, locale@, *desired),
    {
        let mut attributes = app_info_localization_attrs(desired);
        attributes.put("locale", text(locale));
        self.post_resource(
            "/appInfoLocalizations",
            "appInfoLocalizations",
            attributes,
            relation("appInfo", "appInfos", app_info_id),
        )
    }

    /// The request that changes an app info localization.
    pub open spec fn changed_app_info_localization(
        self,
        id: Seq<char>,
        desired: ResolvedAppInfoLocalization,
    ) -> RequestView {
        self.patch_view(
            "/appInfoLocalizations"@,
            "appInfoLocalizations"@,
            id,
            desired.attrs(),
            no_members(),
        )
    }

    /// Changes an app info localization.
    pub fn update_app_info_localization(
        &self,
        localization_id: &str,
        desired: &ResolvedAppInfoLocalization,
    ) -> (request: ApiRequest)
        ensures
            request@ == self.changed_app_info_localization(localization_id@, *desired),
    {
        self.patch_resource(
            "/appInfoLocalizations",
            "appInfoLocalizations",
            localization_id,
            app_info_localization_attrs(desired),
            Members::new(),
        )
    }

    /// Asks for the age rating of an app info.
    pub fn get_age_rating_declaration(&self, app_info_id: &str) -> (request: ApiRequest)
        ensures
            request@ == self.get_view("/appInfos/"@ + app_info_id@ + "/ageRatingDeclaration"@),
    {
        self.get(cat3("/appInfos/", app_info_id, "/ageRatingDeclaration").as_str())
    }

    /// The request that changes an age rating.
    pub open spec fn age_rating_view(
        self,
        id: Seq<char>,
        answers: OrderedMap<Json>,
    ) -> RequestView {
        self.patch_view(
            "/ageRatingDeclarations"@,
            "ageRatingDeclarations"@,
            id,
            rating_attrs(answers),
            no_members(),
        )
    }

    /// Changes an age rating.
    pub fn update_age_rating(&self, declaration_id: &str, attrs: &OrderedMap<Json>) -> (request:
        ApiRequest)
        ensures
            request@ == self.age_rating_view(declaration_id@, *attrs),
    {
        self.patch_resource(
            "/ageRatingDeclarations",
            "ageRatingDeclarations",
            declaration_id,
            age_rating_attrs(attrs),
            Members::new(),
        )
    }

    /// Asks for a version of an app.
    pub fn find_version(
        &self,
        app_id: &str,
        platform: AppPlatform,
        version_string: &str,
    ) -> (request: ApiRequest)
        ensures
            request@ == self.get_view("/apps/"@ + app_id@ + "/appStoreVersions"@).asking(
                "filter[platform]"@,
                platform.asc_value_of(),
            ).asking("filter[versionString]"@, version_string@).asking(
                "fields[appStoreVersions]"@,
                "platform,versionString,appStoreState,appVersionState,copyright,releaseType,earliestReleaseDate,build,appStoreReviewDetail,appStoreVersionLocalizations"@,
            ).asking("include"@, "build"@).asking("limit"@, "2"@),
    {
        self.get(cat3("/apps/", app_id, "/appStoreVersions").as_str()).ask(
            "filter[platform]",
            platform.asc_value(),
        ).ask("filter[versionString]", version_string).ask(
            "fields[appStoreVersions]",
            "platform,versionString,appStoreState,appVersionState,copyright,releaseType,earliestReleaseDate,build,appStoreReviewDetail,appStoreVersionLocalizations",
        ).ask("include", "build").ask("limit", "2")
    }

    /// The one version that was found, if any.
    pub fn found_version(
        versions: Vec<AppStoreVersion>,
        platform: AppPlatform,
        version_string: &str,
    ) -> (result: Result<Option<AppStoreVersion>, Error>)
        ensures
            versions@.len() == 0 ==> result matches Ok(None),
            versions@.len() == 1 ==> result == Ok::<Option<AppStoreVersion>, Error>(
                Some(versions@[0]),
            ),
            versions@.len() > 1 ==> (result matches Err(error) && error@
                == "App Store Connect returned multiple appStoreVersions for platform "@
                + platform.label_of() + " version "@ + version_string@),
    {
        let mut versions = versions;
        if versions.len() > 1 {
            return Err(
                failure(
                    cat3(
                        "App Store Connect returned multiple appStoreVersions for platform ",
                        platform.label(),
                        " version ",
                    ).concat(version_string),
                ),
            );
        }
        Ok(versions.pop())
    }

    /// The attributes of a new version.
    pub open spec fn version_members(platform: AppPlatform, spec: AppVersionSpec) -> MembersView {
        let named = no_members().insert(
            "platform"@,
            JsonView::Text(platform.asc_value_of()),
        ).insert("versionString"@, JsonView::Text(spec.version_string@));
        match spec.release {
            Some(release) => with_text(
                with_text(
                    named,
                    "releaseType"@,
                    match release.kind {
                        Some(kind) => Some(kind.asc_value_of()),
                        None => None,
                    },
                ),
                "earliestReleaseDate"@,
                owned(release.earliest_release_date),
            ),
            None => named,
        }
    }

    /// The request that creates a version.
    pub open spec fn new_version(
        self,
        app_id: Seq<char>,
        platform: AppPlatform,
        spec: AppVersionSpec,
    ) -> RequestView {
        self.post_view(
            "/appStoreVersions"@,
            "appStoreVersions"@,
            AppStoreApi::version_members(platform, spec),
            related("app"@, "apps"@, app_id),
        )
    }

    /// Creates a version.
    pub fn create_version(
        &self,
        app_id: &str,
        platform: AppPlatform,
        spec: &AppVersionSpec,
    ) -> (request: ApiRequest)
        ensures
            request@ == self.new_version(app_id@, platform, *spec),
    {
        let mut attributes = map_with("platform", text(platform.asc_value()));
        attributes.put("versionString", text(spec.version_string.as_str()));
        if let Some(release) = &spec.release {
            if let Some(kind) = release.kind {
                attributes.put("releaseType", text(kind.asc_value()));
            }
            insert_optional(
                &mut attributes,
                "earliestReleaseDate",
                as_deref(&release.earliest_release_date),
            );
        }
        self.post_resource(
            "/appStoreVersions",
            "appStoreVersions",
            attributes,
            relation("app", "apps", app_id),
        )
    }

    /// The request that changes a version.
    pub open spec fn changed_version(
        self,
        id: Seq<char>,
        attributes: MembersView,
        build_id: Option<Seq<char>>,
    ) -> RequestView {
        self.patch_view(
            "/appStoreVersions"@,
            "appStoreVersions"@,
            id,
            attributes,
            match build_id {
                Some(build) => related("build"@, "builds"@, build),
                None => no_members(),
            },
        )
    }

    /// Changes a version or attaches a build to it.
    pub fn update_version(
        &self,
        version_id: &str,
        attributes: Members,
        build_id: Option<&str>,
    ) -> (request: ApiRequest)
        ensures
            request@ == self.changed_version(version_id@, attributes@, given(build_id)),
    {
        let relationships = match build_id {
            Some(build) => relation("build", "builds", build),
            None => Members::new(),
        };
        self.patch_resource(
            "/appStoreVersions",
            "appStoreVersions",
            version_id,
            attributes,
            relationships,
        )
    }

    /// Asks for a build that is ready.
    pub fn find_build(&self, app_id: &str, platform: AppPlatform, build_number: &str) -> (request:
        ApiRequest)
        ensures
            request@ == self.get_view("/builds"@).asking("filter[app]"@, app_id@).asking(
                "filter[version]"@,
                build_number@,
            ).asking("filter[preReleaseVersion.platform]"@, platform.asc_value_of()).asking(
                "filter[processingState]"@,
                "VALID"@,
            ).asking("fields[builds]"@, "version,processingState"@).asking("limit"@, "2"@),
    {
        self.get("/builds").ask("filter[app]", app_id).ask("filter[version]", build_number).ask(
            "filter[preReleaseVersion.platform]",
            platform.asc_value(),
        ).ask("filter[processingState]", "VALID").ask(
            "fields[builds]",
            "version,processingState",
        ).ask("limit", "2")
    }

    /// The one build that was found, if any.
    pub fn found_build(
        builds: Vec<Build>,
        app_id: &str,
        platform: AppPlatform,
        build_number: &str,
    ) -> (result: Result<Option<Build>, Error>)
        ensures
            builds@.len() == 0 ==> result matches Ok(None),
            builds@.len() == 1 ==> result == Ok::<Option<Build>, Error>(Some(builds@[0])),
            builds@.len() > 1 ==> (result matches Err(error) && error@
                == "App Store Connect returned multiple VALID builds for app "@ + app_id@
                + " platform "@ + platform.label_of() + " build "@ + build_number@),
    {
        let mut builds = builds;
        if builds.len() > 1 {
            return Err(
                failure(
                    cat3(
                        "App Store Connect returned multiple VALID builds for app ",
                        app_id,
                        " platform ",
                    ).concat(platform.label()).concat(" build ").concat(build_number),
                ),
            );
        }
        Ok(builds.pop())
    }

    /// Asks for the localizations of a version.
    pub fn list_version_localizations(&self, version_id: &str) -> (request: ApiRequest)
        ensures
            request@ == self.get_view(
                "/appStoreVersions/"@ + version_id@ + "/appStoreVersionLocalizations"@,
            ).asking(
                "fields[appStoreVersionLocalizations]"@,
                "locale,description,keywords,marketingUrl,promotionalText,supportUrl,whatsNew,appScreenshotSets,appPreviewSets"@,
            ).asking("limit"@, "50"@),
    {
        self.get(
            cat3("/appStoreVersions/", version_id, "/appStoreVersionLocalizations").as_str(),
        ).ask(
            "fields[appStoreVersionLocalizations]",
            "locale,description,keywords,marketingUrl,promotionalText,supportUrl,whatsNew,appScreenshotSets,appPreviewSets",
        ).ask("limit", "50")
    }

    /// The request that creates a version localization.
    pub open spec fn new_version_localization(
        self,
        version_id: Seq<char>,
        locale: Seq<char>,
        desired: ResolvedVersionLocalization,
    ) -> RequestView {
        self.post_view(
            "/appStoreVersionLocalizations"@,
            "appStoreVersionLocalizations"@,
            desired.attrs().insert("locale"@, JsonView::Text(locale)),
            related("appStoreVersion"@, "appStoreVersions"@, version_id),
        )
    }

    /// Creates a version localization.
    pub fn create_version_localization(
        &self,
        version_id: &str,
        locale: &str,
        desired: &ResolvedVersionLocalization,
    ) -> (request: ApiRequest)
        ensures
            request@ == self.new_version_localization(version_id@, locale@, *desired),
    {
        let mut attributes = version_localization_attrs(desired);
        attributes.put("locale", text(locale));
        self.post_resource(
            "/appStoreVersionLocalizations",
            "appStoreVersionLocalizations",
            attributes,
            relation("appStoreVersion", "appStoreVersions", version_id),
        )
    }

    /// The request that changes a version localization.
    pub open spec fn changed_version_localization(
        self,
        id: Seq<char>,
        desired: ResolvedVersionLocalization,
    ) -> RequestView {
        self.patch_view(
            "/appStoreVersionLocalizations"@,
            "appStoreVersionLocalizations"@,
            id,
            desired.attrs(),
            no_members(),
        )
    }

    /// Changes a version localization.
    pub fn update_version_localization(
        &self,
        localization_id: &str,
        desired: &ResolvedVersionLocalization,
    ) -> (request: ApiRequest)
        ensures
            request@ == self.changed_version_localization(localization_id@, *desired),
    {
        self.patch_resource(
            "/appStoreVersionLocalizations",
            "appStoreVersionLocalizations",
            localization_id,
            version_localization_attrs(desired),
            Members::new(),
        )
    }

    /// Asks for the review details of a version.
    pub fn get_review_detail(&self, version_id: &str) -> (request: ApiRequest)
        ensures
            request@ == self.get_view(
                "/appStoreVersions/"@ + version_id@ + "/appStoreReviewDetail"@,
            ),
    {
        self.get(cat3("/appStoreVersions/", version_id, "/appStoreReviewDetail").as_str())
    }

    /// The request that brings review details up to date: a change where there are some, else
    /// new ones.
    pub open spec fn review_detail_view(
        self,
        version_id: Seq<char>,
        existing: Option<Seq<char>>,
        desired: ResolvedReview,
    ) -> RequestView {
        match existing {
            Some(id) => self.patch_view(
                "/appStoreReviewDetails"@,
                "appStoreReviewDetails"@,
                id,
                desired.attrs(),
                no_members(),
            ),
            None => self.post_view(
                "/appStoreReviewDetails"@,
                "appStoreReviewDetails"@,
                desired.attrs(),
                related("appStoreVersion"@, "appStoreVersions"@, version_id),
            ),
        }
    }

    /// Brings review details up to date.
    pub fn ensure_review_detail(
        &self,
        version_id: &str,
        existing: Option<&str>,
        desired: &ResolvedReview,
    ) -> (request: ApiRequest)
        ensures
            request@ == self.review_detail_view(version_id@, given(existing), *desired),
    {
        match existing {
            Some(id) => self.patch_resource(
                "/appStoreReviewDetails",
                "appStoreReviewDetails",
                id,
                review_attrs(desired),
                Members::new(),
            ),
            None => self.post_resource(
                "/appStoreReviewDetails",
                "appStoreReviewDetails",
                review_attrs(desired),
                relation("appStoreVersion", "appStoreVersions", version_id),
            ),
        }
    }

    /// Asks for the attachments of review details.
    pub fn list_review_attachments(&self, review_detail_id: &str) -> (request: ApiRequest)
        ensures
            request@ == self.get_view(
                "/appStoreReviewDetails/"@ + review_detail_id@ + "/appStoreReviewAttachments"@,
            ).asking(
                "fields[appStoreReviewAttachments]"@,
                "fileName,fileSize,sourceFileChecksum,assetDeliveryState"@,
            ).asking("limit"@, "50"@),
    {
        self.get(
            cat3(
                "/appStoreReviewDetails/",
                review_detail_id,
                "/appStoreReviewAttachments",
            ).as_str(),
        ).ask(
            "fields[appStoreReviewAttachments]",
            "fileName,fileSize,sourceFileChecksum,assetDeliveryState",
        ).ask("limit", "50")
    }

    /// Deletes an attachment.
    pub fn delete_review_attachment(&self, attachment_id: &str) -> (request: ApiRequest)
        ensures
            request@ == self.delete_view("/appStoreReviewAttachments/"@ + attachment_id@),
    {
        self.delete(cat("/appStoreReviewAttachments/", attachment_id).as_str())
    }

    /// The request that announces a file.
    pub open spec fn reserve_view(
        self,
        kind: AssetKind,
        owner_id: Seq<char>,
        name: Seq<char>,
        size: nat,
        mime: Option<Seq<char>>,
    ) -> RequestView {
        self.post_view(
            "/"@ + kind.names().0,
            kind.names().0,
            with_text(file_members(name, size), "mimeType"@, mime),
            related(kind.names().1, kind.names().2, owner_id),
        )
    }

    /// Announces a file that will be sent in parts.
    pub fn reserve_asset(
        &self,
        kind: AssetKind,
        owner_id: &str,
        file_name: &str,
        file_size: usize,
        mime: Option<&str>,
    ) -> (request: ApiRequest)
        ensures
            request@ == self.reserve_view(
                kind,
                owner_id@,
                file_name@,
                file_size as nat,
                given(mime),
            ),
    {
        let mut attributes = file_attrs(file_name, file_size);
        insert_optional(&mut attributes, "mimeType", mime);
        self.post_resource(
            cat("/", kind.kind()).as_str(),
            kind.kind(),
            attributes,
            relation(kind.owner_key(), kind.owner_kind(), owner_id),
        )
    }

    /// Tells that all parts of a file were sent.
    pub fn commit_asset(&self, kind: AssetKind, asset_id: &str, checksum: &str) -> (request:
        ApiRequest)
        ensures
            request@ == self.patch_view(
                "/"@ + kind.names().0,
                kind.names().0,
                asset_id@,
                uploaded_members(checksum@),
                no_members(),
            ),
    {
        self.patch_resource(
            cat("/", kind.kind()).as_str(),
            kind.kind(),
            asset_id,
            uploaded_attrs(checksum),
            Members::new(),
        )
    }

    /// Asks for the screenshot sets of a localization.
    pub fn find_screenshot_set(&self, localization_id: &str) -> (request: ApiRequest)
        ensures
            request@ == self.get_view(
                "/appStoreVersionLocalizations/"@ + localization_id@ + "/appScreenshotSets"@,
            ).asking("fields[appScreenshotSets]"@, "screenshotDisplayType"@).asking(
                "limit"@,
                "50"@,
            ),
    {
        self.get(
            cat3(
                "/appStoreVersionLocalizations/",
                localization_id,
                "/appScreenshotSets",
            ).as_str(),
        ).ask("fields[appScreenshotSets]", "screenshotDisplayType").ask("limit", "50")
    }

    /// Asks for the preview sets of a localization.
    pub fn find_preview_set(&self, localization_id: &str) -> (request: ApiRequest)
        ensures
            request@ == self.get_view(
                "/appStoreVersionLocalizations/"@ + localization_id@ + "/appPreviewSets"@,
            ).asking("fields[appPreviewSets]"@, "previewType"@).asking("limit"@, "50"@),
    {
        self.get(
            cat3(
                "/appStoreVersionLocalizations/",
                localization_id,
                "/appPreviewSets",
            ).as_str(),
        ).ask("fields[appPreviewSets]", "previewType").ask("limit", "50")
    }

    /// The first set of a type.
    pub open spec fn first_set(sets: Seq<MediaSet>, media_type: Seq<char>, i: int) -> Option<int>
        decreases sets.len() - i,
    {
        if i >= sets.len() {
            None
        } else if sets[i].media_type@ == media_type {
            Some(i)
        } else {
            AppStoreApi::first_set(sets, media_type, i + 1)
        }
    }

    /// The first set of a type.
    pub fn found_set<'a>(sets: &'a Vec<MediaSet>, media_type: &str) -> (set: Option<&'a MediaSet>)
        ensures
            match AppStoreApi::first_set(sets@, media_type@, 0) {
                Some(i) => set == Some(&sets@[i]),
                None => set is None,
            },
    {
        let mut i: usize = 0;
        while i < sets.len()
            invariant
                i <= sets.len(),
                AppStoreApi::first_set(sets@, media_type@, 0) == AppStoreApi::first_set(
                    sets@,
                    media_type@,
                    i as int,
                ),
            decreases sets.len() - i,
        {
            if same(sets[i].media_type.as_str(), media_type) {
                return Some(&sets[i]);
            }
            i += 1;
        }
        None
    }

    /// The request that creates a screenshot set.
    pub open spec fn new_screenshot_set(
        self,
        localization_id: Seq<char>,
        display_type: Seq<char>,
    ) -> RequestView {
        self.post_view(
            "/appScreenshotSets"@,
            "appScreenshotSets"@,
            no_members().insert("screenshotDisplayType"@, JsonView::Text(display_type)),
            related(
                "appStoreVersionLocalization"@,
                "appStoreVersionLocalizations"@,
                localization_id,
            ),
        )
    }

    /// Creates a screenshot set.
    pub fn create_screenshot_set(&self, localization_id: &str, display_type: &str) -> (request:
        ApiRequest)
        ensures
            request@ == self.new_screenshot_set(localization_id@, display_type@),
    {
        self.post_resource(
            "/appScreenshotSets",
            "appScreenshotSets",
            map_with("screenshotDisplayType", text(display_type)),
            relation(
                "appStoreVersionLocalization",
                "appStoreVersionLocalizations",
                localization_id,
            ),
        )
    }

    /// Deletes a screenshot set.
    pub fn delete_screenshot_set(&self, set_id: &str) -> (request: ApiRequest)
        ensures
            request@ == self.delete_view("/appScreenshotSets/"@ + set_id@),
    {
        self.delete(cat("/appScreenshotSets/", set_id).as_str())
    }

    /// Asks for the screenshots of a set.
    pub fn list_screenshots(&self, set_id: &str) -> (request: ApiRequest)
        ensures
            request@ == self.get_view(
                "/appScreenshotSets/"@ + set_id@ + "/appScreenshots"@,
            ).asking(
                "fields[appScreenshots]"@,
                "fileName,fileSize,sourceFileChecksum,assetDeliveryState"@,
            ).asking("limit"@, "50"@),
    {
        self.get(cat3("/appScreenshotSets/", set_id, "/appScreenshots").as_str()).ask(
            "fields[appScreenshots]",
            "fileName,fileSize,sourceFileChecksum,assetDeliveryState",
        ).ask("limit", "50")
    }

    /// The request that creates a preview set.
    pub open spec fn new_preview_set(
        self,
        localization_id: Seq<char>,
        preview_type: Seq<char>,
    ) -> RequestView {
        self.post_view(
            "/appPreviewSets"@,
            "appPreviewSets"@,
            no_members().insert("previewType"@, JsonView::Text(preview_type)),
            related(
                "appStoreVersionLocalization"@,
                "appStoreVersionLocalizations"@,
                localization_id,
            ),
        )
    }

    /// Creates a preview set.
    pub fn create_preview_set(&self, localization_id: &str, preview_type: &str) -> (request:
        ApiRequest)
        ensures
            request@ == self.new_preview_set(localization_id@, preview_type@),
    {
        self.post_resource(
            "/appPreviewSets",
            "appPreviewSets",
            map_with("previewType", text(preview_type)),
            relation(
                "appStoreVersionLocalization",
                "appStoreVersionLocalizations",
                localization_id,
            ),
        )
    }

    /// Deletes a preview set.
    pub fn delete_preview_set(&self, set_id: &str) -> (request: ApiRequest)
        ensures
            request@ == self.delete_view("/appPreviewSets/"@ + set_id@),
    {
        self.delete(cat("/appPreviewSets/", set_id).as_str())
    }

    /// Asks for the previews of a set.
    pub fn list_previews(&self, set_id: &str) -> (request: ApiRequest)
        ensures
            request@ == self.get_view("/appPreviewSets/"@ + set_id@ + "/appPreviews"@).asking(
                "fields[appPreviews]"@,
                "fileName,fileSize,sourceFileChecksum,videoDeliveryState"@,
            ).asking("limit"@, "50"@),
    {
        self.get(cat3("/appPreviewSets/", set_id, "/appPreviews").as_str()).ask(
            "fields[appPreviews]",
            "fileName,fileSize,sourceFileChecksum,videoDeliveryState",
        ).ask("limit", "50")
    }

    /// Asks for the review submissions of an app on one platform.
    pub fn list_review_submissions(&self, app_id: &str, platform: AppPlatform) -> (request:
        ApiRequest)
        ensures
            request@ == self.get_view("/apps/"@ + app_id@ + "/reviewSubmissions"@).asking(
                "filter[platform]"@,
                platform.asc_value_of(),
            ).asking("fields[reviewSubmissions]"@, "platform,state,items"@).asking(
                "limit"@,
                "50"@,
            ),
    {
        self.get(cat3("/apps/", app_id, "/reviewSubmissions").as_str()).ask(
            "filter[platform]",
            platform.asc_value(),
        ).ask("fields[reviewSubmissions]", "platform,state,items").ask("limit", "50")
    }

    /// The first submission that is open.
    pub open spec fn first_open(submissions: Seq<ReviewSubmission>, i: int) -> Option<int>
        decreases submissions.len() - i,
    {
        if i >= submissions.len() {
            None
        } else if is_state(submissions[i].attributes.state, "READY_FOR_REVIEW"@) {
            Some(i)
        } else {
            AppStoreApi::first_open(submissions, i + 1)
        }
    }

    /// The open submission to use, or the request for a new one.
    pub fn find_or_create_review_submission(
        &self,
        submissions: &Vec<ReviewSubmission>,
        app_id: &str,
        platform: AppPlatform,
    ) -> (result: Result<usize, ApiRequest>)
        ensures
            match AppStoreApi::first_open(submissions@, 0) {
                Some(i) => result matches Ok(place) && place == i && place < submissions@.len(),
                None => result matches Err(request) && request@ == self.post_view(
                    "/reviewSubmissions"@,
                    "reviewSubmissions"@,
                    no_members().insert("platform"@, JsonView::Text(platform.asc_value_of())),
                    related("app"@, "apps"@, app_id@),
                ),
            },
    {
        let mut i: usize = 0;
        while i < submissions.len()
            invariant
                i <= submissions.len(),
                AppStoreApi::first_open(submissions@, 0) == AppStoreApi::first_open(
                    submissions@,
                    i as int,
                ),
            decreases submissions.len() - i,
        {
            if has_state(&submissions[i].attributes.state, "READY_FOR_REVIEW") {
                return Ok(i);
            }
            i += 1;
        }
        Err(
            self.post_resource(
                "/reviewSubmissions",
                "reviewSubmissions",
                map_with("platform", text(platform.asc_value())),
                relation("app", "apps", app_id),
            ),
        )
    }

    /// Asks for the items of a submission.
    pub fn list_review_submission_items(&self, submission_id: &str) -> (request: ApiRequest)
        ensures
            request@ == self.get_view("/reviewSubmissions/"@ + submission_id@ + "/items"@).asking(
                "fields[reviewSubmissionItems]"@,
                "appStoreVersion"@,
            ).asking("include"@, "appStoreVersion"@).asking("limit"@, "50"@),
    {
        self.get(cat3("/reviewSubmissions/", submission_id, "/items").as_str()).ask(
            "fields[reviewSubmissionItems]",
            "appStoreVersion",
        ).ask("include", "appStoreVersion").ask("limit", "50")
    }

    /// The version that an item submits.
    pub open spec fn item_version(item: ReviewSubmissionItem) -> Option<Seq<char>> {
        match item.relationships {
            Some(relationships) => relationship_id(relationships.app_store_version),
            None => None,
        }
    }

    /// The request that adds a version to a submission; none if it is there.
    pub fn ensure_review_submission_item(
        &self,
        items: &Vec<ReviewSubmissionItem>,
        submission_id: &str,
        version_id: &str,
    ) -> (request: Option<ApiRequest>)
        ensures
            if exists|i: int|
                0 <= i < items@.len() && AppStoreApi::item_version(#[trigger] items@[i]) == Some(
                    version_id@,
                ) {
                request is None
            } else {
                request matches Some(found) && found@ == self.post_view(
                    "/reviewSubmissionItems"@,
                    "reviewSubmissionItems"@,
                    no_members(),
                    no_members().insert(
                        "reviewSubmission"@,
                        link_view("reviewSubmissions"@, submission_id@),
                    ).insert("appStoreVersion"@, link_view("appStoreVersions"@, version_id@)),
                )
            },
    {
        let mut i: usize = 0;
        while i < items.len()
            invariant
                i <= items.len(),
                forall|k: int|
                    0 <= k < i ==> AppStoreApi::item_version(#[trigger] items@[k]) != Some(
                        version_id@,
                    ),
            decreases items.len() - i,
        {
            if let Some(relationships) = &items[i].relationships {
                if related_to(&relationships.app_store_version, version_id) {
                    proof {
                        assert(AppStoreApi::item_version(items@[i as int]) == Some(version_id@));
                    }
                    return None;
                }
            }
            i += 1;
        }
        let mut relationships = Members::new();
        relationships.put("reviewSubmission", link("reviewSubmissions", submission_id));
        relationships.put("appStoreVersion", link("appStoreVersions", version_id));
        Some(
            self.post_resource(
                "/reviewSubmissionItems",
                "reviewSubmissionItems",
                Members::new(),
                relationships,
            ),
        )
    }

    /// Sends a submission to review.
    pub fn submit_review_submission(&self, submission_id: &str) -> (request: ApiRequest)
        ensures
            request@ == self.patch_view(
                "/reviewSubmissions"@,
                "reviewSubmissions"@,
                submission_id@,
                no_members().insert("submitted"@, JsonView::Bool(true)),
                no_members(),
            ),
    {
        self.patch_resource(
            "/reviewSubmissions",
            "reviewSubmissions",
            submission_id,
            map_with("submitted", Json::Bool(true)),
            Members::new(),
        )
    }
}

} // verus!
