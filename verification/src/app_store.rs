//! The store side of the account: what the API tells of it, and what has to change.

use vstd::prelude::*;
use vstd::string::*;
use crate::config::AppPlatform;
use crate::json::Json;
use crate::ordered::OrderedMap;
use crate::text::{cat3, owned, same};

pub mod laws;
pub mod plan_laws;
pub mod rating;
pub mod reconcile;
pub mod requests;
pub mod resolve;
pub mod resources;
pub mod upload;
pub mod upload_laws;

verus! {

/// The id of a resource.
#[derive(Debug)]
pub struct ResourceIdentifier {
    pub id: String,
}

/// A relationship to at most one resource.
#[derive(Debug)]
pub struct Relationship {
    pub data: Option<ResourceIdentifier>,
}

/// The relationships of a version or of a submission item.
#[derive(Debug)]
pub struct Relationships {
    pub build: Option<Relationship>,
    pub app_store_version: Option<Relationship>,
}

/// The app info of an app.
#[derive(Debug)]
pub struct AppInfo {
    pub id: String,
    pub attributes: AppInfoAttributes,
}

/// What the API tells of an app info.
#[derive(Debug)]
pub struct AppInfoAttributes {
    pub state: Option<String>,
}

/// The age rating of an app.
#[derive(Debug)]
pub struct AgeRatingDeclaration {
    pub id: String,
    pub attributes: OrderedMap<Json>,
}

/// A localization of an app info.
#[derive(Debug)]
pub struct AppInfoLocalization {
    pub id: String,
    pub attributes: AppInfoLocalizationAttributes,
}

/// What the API tells of an app info localization.
#[derive(Debug)]
pub struct AppInfoLocalizationAttributes {
    pub locale: String,
    pub name: String,
    pub subtitle: Option<String>,
    pub privacy_policy_url: Option<String>,
    pub privacy_choices_url: Option<String>,
    pub privacy_policy_text: Option<String>,
}

/// A version of an app on one platform.
#[derive(Debug)]
pub struct AppStoreVersion {
    pub id: String,
    pub attributes: AppStoreVersionAttributes,
    pub relationships: Option<Relationships>,
}

/// What the API tells of a version.
#[derive(Debug)]
pub struct AppStoreVersionAttributes {
    pub app_store_state: Option<String>,
    pub app_version_state: Option<String>,
    pub copyright: Option<String>,
    pub release_type: Option<String>,
    pub earliest_release_date: Option<String>,
}

/// A build of an app.
#[derive(Debug)]
pub struct Build {
    pub id: String,
}

/// A localization of a version.
#[derive(Debug)]
pub struct AppStoreVersionLocalization {
    pub id: String,
    pub attributes: AppStoreVersionLocalizationAttributes,
}

/// What the API tells of a version localization.
#[derive(Debug)]
pub struct AppStoreVersionLocalizationAttributes {
    pub locale: String,
    pub description: Option<String>,
    pub keywords: Option<String>,
    pub marketing_url: Option<String>,
    pub promotional_text: Option<String>,
    pub support_url: Option<String>,
    pub whats_new: Option<String>,
}

/// What App Review is told of a version.
#[derive(Debug)]
pub struct AppStoreReviewDetail {
    pub id: String,
    pub attributes: AppStoreReviewDetailAttributes,
}

/// What the API tells of review details.
#[derive(Debug)]
pub struct AppStoreReviewDetailAttributes {
    pub contact_first_name: Option<String>,
    pub contact_last_name: Option<String>,
    pub contact_phone: Option<String>,
    pub contact_email: Option<String>,
    pub demo_account_name: Option<String>,
    pub demo_account_password: Option<String>,
    pub demo_account_required: Option<bool>,
    pub notes: Option<String>,
}

/// A set of screenshots or previews: its id and the type that the API knows it by.
#[derive(Debug)]
pub struct MediaSet {
    pub id: String,
    pub media_type: String,
}

/// An uploaded file: a screenshot, a preview or a review attachment.
#[derive(Debug)]
pub struct MediaAsset {
    pub id: String,
    pub attributes: MediaAssetAttributes,
}

/// What the API tells of an uploaded file.
#[derive(Debug)]
pub struct MediaAssetAttributes {
    pub file_name: Option<String>,
    pub file_size: Option<u64>,
    pub source_file_checksum: Option<String>,
    pub upload_operations: Option<Vec<UploadOperation>>,
    pub asset_delivery_state: Option<DeliveryState>,
    pub video_delivery_state: Option<DeliveryState>,
    pub app_event_asset_type: Option<String>,
}

/// How far the processing of an uploaded file has come.
#[derive(Debug)]
pub struct DeliveryState {
    pub state: Option<String>,
    pub errors: Option<Vec<Json>>,
}

/// One part of an upload.
#[derive(Debug)]
pub struct UploadOperation {
    pub method: Option<String>,
    pub url: Option<String>,
    pub length: Option<usize>,
    pub offset: Option<usize>,
    pub request_headers: Vec<HttpHeader>,
}

/// A header that an upload needs.
#[derive(Debug)]
pub struct HttpHeader {
    pub name: Option<String>,
    pub value: Option<String>,
}

/// A review submission.
#[derive(Debug)]
pub struct ReviewSubmission {
    pub id: String,
    pub attributes: ReviewSubmissionAttributes,
}

/// What the API tells of a review submission.
#[derive(Debug)]
pub struct ReviewSubmissionAttributes {
    pub state: Option<String>,
}

/// An item of a review submission.
#[derive(Debug)]
pub struct ReviewSubmissionItem {
    pub relationships: Option<Relationships>,
}

/// Whether a state is given and is the given one.
pub open spec fn is_state(state: Option<String>, name: Seq<char>) -> bool {
    owned(state) == Some(name)
}

/// Whether a state is given and is the given one.
pub fn has_state(state: &Option<String>, name: &str) -> (result: bool)
    ensures
        result == is_state(*state, name@),
{
    match state {
        Some(text) => same(text.as_str(), name),
        None => false,
    }
}

impl AppInfo {
    /// The states in which an app info can be changed.
    pub open spec fn editable(self) -> bool {
        let state = self.attributes.state;
        ||| is_state(state, "PREPARE_FOR_SUBMISSION"@)
        ||| is_state(state, "DEVELOPER_REJECTED"@)
        ||| is_state(state, "REJECTED"@)
        ||| is_state(state, "READY_FOR_REVIEW"@)
        ||| is_state(state, "WAITING_FOR_REVIEW"@)
    }

    /// Whether the app info can be changed.
    pub fn is_editable(&self) -> (result: bool)
        ensures
            result == self.editable(),
    {
        let state = &self.attributes.state;
        has_state(state, "PREPARE_FOR_SUBMISSION") || has_state(state, "DEVELOPER_REJECTED")
            || has_state(state, "REJECTED") || has_state(state, "READY_FOR_REVIEW") || has_state(
            state,
            "WAITING_FOR_REVIEW",
        )
    }
}

impl AppStoreVersion {
    /// The version that a plan would create.
    pub fn planned(platform: AppPlatform, version_string: &str) -> (version: AppStoreVersion)
        ensures
            version.id@ == "planned-app-store-version-"@ + platform.asc_value_of() + "-"@
                + version_string@,
            is_state(version.attributes.app_store_state, "PREPARE_FOR_SUBMISSION"@),
            is_state(version.attributes.app_version_state, "PREPARE_FOR_SUBMISSION"@),
            version.attributes.copyright is None,
            version.attributes.release_type is None,
            version.attributes.earliest_release_date is None,
            version.relationships is None,
    {
        AppStoreVersion {
            id: cat3("planned-app-store-version-", platform.asc_value(), "-").concat(
                version_string,
            ),
            attributes: AppStoreVersionAttributes {
                app_store_state: Some("PREPARE_FOR_SUBMISSION".to_owned()),
                app_version_state: Some("PREPARE_FOR_SUBMISSION".to_owned()),
                copyright: None,
                release_type: None,
                earliest_release_date: None,
            },
            relationships: None,
        }
    }

    /// A version can be changed unless it is on sale, was replaced or was taken off sale.
    pub open spec fn editable(self) -> bool {
        let store = self.attributes.app_store_state;
        let version = self.attributes.app_version_state;
        &&& !is_state(store, "READY_FOR_SALE"@)
        &&& !is_state(store, "PREORDER_READY_FOR_SALE"@)
        &&& !is_state(store, "DEVELOPER_REMOVED_FROM_SALE"@)
        &&& !is_state(store, "REMOVED_FROM_SALE"@)
        &&& !is_state(store, "REPLACED_WITH_NEW_VERSION"@)
        &&& !is_state(version, "READY_FOR_DISTRIBUTION"@)
        &&& !is_state(version, "REPLACED_WITH_NEW_VERSION"@)
    }

    /// Whether the version can be changed.
    pub fn is_editable(&self) -> (result: bool)
        ensures
            result == self.editable(),
    {
        let store = &self.attributes.app_store_state;
        let version = &self.attributes.app_version_state;
        !(has_state(store, "READY_FOR_SALE") || has_state(store, "PREORDER_READY_FOR_SALE")
            || has_state(store, "DEVELOPER_REMOVED_FROM_SALE") || has_state(
            store,
            "REMOVED_FROM_SALE",
        ) || has_state(store, "REPLACED_WITH_NEW_VERSION")) && !(has_state(
            version,
            "READY_FOR_DISTRIBUTION",
        ) || has_state(version, "REPLACED_WITH_NEW_VERSION"))
    }

    /// The build that is attached to the version.
    pub open spec fn build_id(self) -> Option<Seq<char>> {
        match self.relationships {
            Some(relationships) => relationship_id(relationships.build),
            None => None,
        }
    }

    /// Whether a build is attached to the version.
    pub fn has_build(&self, id: &str) -> (result: bool)
        ensures
            result == (self.build_id() == Some(id@)),
    {
        match &self.relationships {
            Some(relationships) => related_to(&relationships.build, id),
            None => false,
        }
    }
}

/// The id behind a relationship.
pub open spec fn relationship_id(relationship: Option<Relationship>) -> Option<Seq<char>> {
    match relationship {
        Some(found) => match found.data {
            Some(data) => Some(data.id@),
            None => None,
        },
        None => None,
    }
}

/// Whether a relationship leads to an id.
pub fn related_to(relationship: &Option<Relationship>, id: &str) -> (result: bool)
    ensures
        result == (relationship_id(*relationship) == Some(id@)),
{
    match relationship {
        Some(found) => match &found.data {
            Some(data) => same(data.id.as_str(), id),
            None => false,
        },
        None => false,
    }
}

/// A version that a plan would create can be changed.
pub proof fn law_planned_versions_are_editable(version: AppStoreVersion)
    requires
        is_state(version.attributes.app_store_state, "PREPARE_FOR_SUBMISSION"@),
        is_state(version.attributes.app_version_state, "PREPARE_FOR_SUBMISSION"@),
    ensures
        version.editable(),
{
    reveal_strlit("PREPARE_FOR_SUBMISSION");
    reveal_strlit("READY_FOR_SALE");
    reveal_strlit("PREORDER_READY_FOR_SALE");
    reveal_strlit("DEVELOPER_REMOVED_FROM_SALE");
    reveal_strlit("REMOVED_FROM_SALE");
    reveal_strlit("REPLACED_WITH_NEW_VERSION");
    reveal_strlit("READY_FOR_DISTRIBUTION");
    let s = "PREPARE_FOR_SUBMISSION"@;
    assert(s.len() == 22);
    assert(s[0] == 'P' && s[1] == 'R' && s[2] == 'E' && s[3] == 'P');
    assert("READY_FOR_SALE"@.len() == 14);
    assert("READY_FOR_DISTRIBUTION"@[0] == 'R');
    assert("PREORDER_READY_FOR_SALE"@[3] == 'O');
    assert("DEVELOPER_REMOVED_FROM_SALE"@[0] == 'D');
    assert("REMOVED_FROM_SALE"@[0] == 'R');
    assert("REPLACED_WITH_NEW_VERSION"@[0] == 'R');
}

impl DeliveryState {
    /// Without errors, and in a final state or in none.
    pub open spec fn complete(self) -> bool {
        &&& !(self.errors matches Some(errors) && errors@.len() > 0)
        &&& match self.state {
            None => true,
            Some(state) => state@ == "COMPLETE"@ || state@ == "UPLOADED"@ || state@ == "READY"@,
        }
    }

    /// Whether the processing is done.
    pub fn is_complete(&self) -> (result: bool)
        ensures
            result == self.complete(),
    {
        if let Some(errors) = &self.errors {
            if errors.len() > 0 {
                return false;
            }
        }
        match &self.state {
            None => true,
            Some(state) => same(state.as_str(), "COMPLETE") || same(state.as_str(), "UPLOADED")
                || same(state.as_str(), "READY"),
        }
    }
}

impl MediaAssetAttributes {
    /// Whether the processing of an image is done.
    pub fn delivery_state_complete(&self) -> (result: bool)
        ensures
            result == (self.asset_delivery_state matches Some(state) ==> state.complete()),
    {
        match &self.asset_delivery_state {
            Some(state) => state.is_complete(),
            None => true,
        }
    }

    /// Whether the processing of a video is done.
    pub fn video_state_complete(&self) -> (result: bool)
        ensures
            result == (self.video_delivery_state matches Some(state) ==> state.complete()),
    {
        match &self.video_delivery_state {
            Some(state) => state.is_complete(),
            None => true,
        }
    }
}

impl UploadOperation {
    /// The headers that have both a name and a value, among the first `n`.
    pub open spec fn headers_of(headers: Seq<HttpHeader>, n: nat) -> Seq<(Seq<char>, Seq<char>)>
        decreases n,
    {
        if n == 0 || n > headers.len() {
            seq![]
        } else {
            let before = UploadOperation::headers_of(headers, (n - 1) as nat);
            match (headers[n - 1].name, headers[n - 1].value) {
                (Some(name), Some(value)) => before.push((name@, value@)),
                _ => before,
            }
        }
    }

    /// The headers that have both a name and a value.
    pub fn headers(&self) -> (headers: Vec<(String, String)>)
        ensures
            headers@.map_values(|pair: (String, String)| (pair.0@, pair.1@))
                == UploadOperation::headers_of(
                self.request_headers@,
                self.request_headers@.len(),
            ),
    {
        let mut headers: Vec<(String, String)> = Vec::new();
        let mut i: usize = 0;
        proof {
            assert(headers@.map_values(|pair: (String, String)| (pair.0@, pair.1@)) =~= Seq::<
                (Seq<char>, Seq<char>),
            >::empty());
        }
        while i < self.request_headers.len()
            invariant
                i <= self.request_headers.len(),
                headers@.map_values(|pair: (String, String)| (pair.0@, pair.1@))
                    == UploadOperation::headers_of(self.request_headers@, i as nat),
            decreases self.request_headers.len() - i,
        {
            let header = &self.request_headers[i];
            let ghost before = headers@.map_values(|pair: (String, String)| (pair.0@, pair.1@));
            match (&header.name, &header.value) {
                (Some(name), Some(value)) => {
                    headers.push((name.clone(), value.clone()));
                    proof {
                        assert(headers@.map_values(|pair: (String, String)| (pair.0@, pair.1@))
                            =~= before.push((name@, value@)));
                    }
                },
                _ => {},
            }
            i += 1;
        }
        headers
    }
}

} // verus!
