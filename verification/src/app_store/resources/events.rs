//! Which changes bring events up to date.

use vstd::prelude::*;
use vstd::string::*;
use crate::api::ApiRequest;
use crate::app_store::reconcile::{one_step, ran, ran_all, AppStoreSync};
use crate::app_store::requests::no_members;
use crate::app_store::resources::pages::{lemma_more, tell_each, told_each};
use crate::app_store::resources::requests::{app_event_attrs, event_members};
use crate::app_store::resources::{
    RemoteResource, ResolvedAppEvent, ResolvedAppEventLocalization,
};
use crate::app_store::MediaAsset;
use crate::config::AppEventMediaSpec;
use crate::json::not_standing;
use crate::ordered::OrderedMap;
use crate::paths::{file_name_of, path_file_name};
use crate::sync::{no_requests, request_views, ChangeKind, ChangeView, Mode, StepView};
use crate::text::{as_deref, cat, cat3, given, owned, same};

verus! {

/// The subject of changes to an event.
pub open spec fn event_subject(app_key: Seq<char>, event_key: Seq<char>) -> Seq<char> {
    "app."@ + app_key + ".app_events."@ + event_key
}

fn event_name(app_key: &str, event_key: &str) -> (subject: String)
    ensures
        subject@ == event_subject(app_key@, event_key@),
{
    cat3("app.", app_key, ".app_events.").concat(event_key)
}

/// What there is to do for an event: attributes that are not there with the wanted value are
/// given it.
pub open spec fn event_step(
    sync: AppStoreSync,
    app_key: Seq<char>,
    app_id: Seq<char>,
    event_key: Seq<char>,
    desired: ResolvedAppEvent,
    existing: Option<&RemoteResource>,
) -> Option<StepView> {
    match existing {
        Some(found) => {
            let attrs = not_standing(event_members(desired), found.attrs());
            if attrs == no_members() {
                None
            } else {
                Some(
                    one_step(
                        ChangeKind::Update,
                        event_subject(app_key, event_key),
                        "ensure app event attributes match config"@,
                        sync.api.changed_event(found.id@, attrs),
                    ),
                )
            }
        },
        None => Some(
            one_step(
                ChangeKind::Create,
                event_subject(app_key, event_key),
                "create app event"@,
                sync.api.new_event(app_id, desired),
            ),
        ),
    }
}

/// What a plan tells of an event that is not there yet.
pub open spec fn event_children(
    app_key: Seq<char>,
    event_key: Seq<char>,
    localizations: OrderedMap<ResolvedAppEventLocalization>,
    media: OrderedMap<AppEventMediaSpec>,
) -> Seq<StepView> {
    told_each(
        ChangeKind::Create,
        event_subject(app_key, event_key) + ".localizations."@,
        localizations.entries(),
        "create app event localization"@,
        localizations.entries().len(),
    ) + told_each(
        ChangeKind::Replace,
        event_subject(app_key, event_key) + ".media."@,
        media.entries(),
        "replace app event media"@,
        media.entries().len(),
    )
}

/// An event localization that is created or changed.
pub open spec fn event_localization_step(
    sync: AppStoreSync,
    app_key: Seq<char>,
    event_key: Seq<char>,
    event_id: Seq<char>,
    locale: Seq<char>,
    desired: ResolvedAppEventLocalization,
    existing: Option<&RemoteResource>,
) -> Option<StepView> {
    let subject = event_subject(app_key, event_key) + ".localizations."@ + locale;
    let detail = "ensure app event localization matches config"@;
    match existing {
        Some(found) => if desired.same_in(*found) {
            None
        } else {
            Some(
                one_step(
                    ChangeKind::Update,
                    subject,
                    detail,
                    sync.api.changed_event_localization(found.id@, desired),
                ),
            )
        },
        None => Some(
            one_step(
                ChangeKind::Create,
                subject,
                detail,
                sync.api.new_event_localization(event_id, locale, desired),
            ),
        ),
    }
}

/// The files that an event localization can have.
#[derive(Debug, Clone, Copy, PartialEq, Eq, Structural)]
pub enum EventField {
    CardImage,
    DetailsImage,
    CardVideo,
    DetailsVideo,
}

impl EventField {
    /// The name in the configuration.
    pub open spec fn key_of(self) -> Seq<char> {
        match self {
            EventField::CardImage => "card_image"@,
            EventField::DetailsImage => "details_image"@,
            EventField::CardVideo => "card_video"@,
            EventField::DetailsVideo => "details_video"@,
        }
    }

    /// The name in the configuration.
    pub fn key(self) -> (name: &'static str)
        ensures
            name@ == self.key_of(),
    {
        match self {
            EventField::CardImage => "card_image",
            EventField::DetailsImage => "details_image",
            EventField::CardVideo => "card_video",
            EventField::DetailsVideo => "details_video",
        }
    }

    /// Where the file is shown.
    pub open spec fn asset_type_of(self) -> Seq<char> {
        match self {
            EventField::CardImage => "EVENT_CARD"@,
            EventField::DetailsImage => "EVENT_DETAILS_PAGE"@,
            EventField::CardVideo => "EVENT_CARD"@,
            EventField::DetailsVideo => "EVENT_DETAILS_PAGE"@,
        }
    }

    /// Where the file is shown.
    pub fn asset_type(self) -> (name: &'static str)
        ensures
            name@ == self.asset_type_of(),
    {
        match self {
            EventField::CardImage => "EVENT_CARD",
            EventField::DetailsImage => "EVENT_DETAILS_PAGE",
            EventField::CardVideo => "EVENT_CARD",
            EventField::DetailsVideo => "EVENT_DETAILS_PAGE",
        }
    }

    /// The file is a video.
    pub open spec fn video(self) -> bool {
        self == EventField::CardVideo || self == EventField::DetailsVideo
    }

    /// Whether the file is a video.
    pub fn is_video(self) -> (result: bool)
        ensures
            result == self.video(),
    {
        match self {
            EventField::CardImage => false,
            EventField::DetailsImage => false,
            EventField::CardVideo => true,
            EventField::DetailsVideo => true,
        }
    }

    /// The configured file.
    pub open spec fn path_of(self, media: AppEventMediaSpec) -> Option<Seq<char>> {
        match self {
            EventField::CardImage => owned(media.card_image),
            EventField::DetailsImage => owned(media.details_image),
            EventField::CardVideo => owned(media.card_video),
            EventField::DetailsVideo => owned(media.details_video),
        }
    }

    /// The configured file.
    pub fn path<'a>(self, media: &'a AppEventMediaSpec) -> (path: Option<&'a str>)
        ensures
            given(path) == self.path_of(*media),
    {
        match self {
            EventField::CardImage => as_deref(&media.card_image),
            EventField::DetailsImage => as_deref(&media.details_image),
            EventField::CardVideo => as_deref(&media.card_video),
            EventField::DetailsVideo => as_deref(&media.details_video),
        }
    }
}

/// The order in which the files of an event are looked at: images, then videos.
pub fn event_fields() -> (fields: [EventField; 4])
    ensures
        fields@ == seq![
            EventField::CardImage,
            EventField::DetailsImage,
            EventField::CardVideo,
            EventField::DetailsVideo,
        ],
{
    [
        EventField::CardImage,
        EventField::DetailsImage,
        EventField::CardVideo,
        EventField::DetailsVideo,
    ]
}

/// The first file that is shown at a place.
pub open spec fn asset_at(assets: Seq<MediaAsset>, asset_type: Seq<char>, i: int) -> Option<
    MediaAsset,
>
    decreases assets.len() - i,
{
    if i < 0 || i >= assets.len() {
        None
    } else if owned(assets[i].attributes.app_event_asset_type) == Some(asset_type) {
        Some(assets[i])
    } else {
        asset_at(assets, asset_type, i + 1)
    }
}

fn find_asset<'a>(assets: &'a Vec<MediaAsset>, asset_type: &str) -> (asset: Option<&'a MediaAsset>)
    ensures
        match asset_at(assets@, asset_type@, 0) {
            Some(found) => asset == Some(&found),
            None => asset is None,
        },
{
    let mut i: usize = 0;
    while i < assets.len()
        invariant
            i <= assets.len(),
            asset_at(assets@, asset_type@, 0) == asset_at(assets@, asset_type@, i as int),
        decreases assets.len() - i,
    {
        let here = match &assets[i].attributes.app_event_asset_type {
            Some(place) => same(place.as_str(), asset_type),
            None => false,
        };
        if here {
            return Some(&assets[i]);
        }
        i += 1;
    }
    None
}

/// An uploaded file is the one at a path, as far as name and size tell. A file whose size is not
/// known is not.
pub open spec fn is_file_at(asset: MediaAsset, path: Seq<char>, size: Option<u64>) -> bool {
    &&& size is Some
    &&& file_name_of(path) is Some
    &&& owned(asset.attributes.file_name) == file_name_of(path)
    &&& asset.attributes.file_size == size
}

/// Whether an uploaded file is the one at a path, as far as name and size tell.
pub fn event_asset_matches_path(asset: &MediaAsset, path: &str, size: Option<u64>) -> (result: bool)
    ensures
        result == is_file_at(*asset, path@, size),
{
    match (size, path_file_name(path), &asset.attributes.file_name, asset.attributes.file_size) {
        (Some(bytes), Some(name), Some(there), Some(held)) => bytes == held && same(
            name.as_str(),
            there.as_str(),
        ),
        _ => false,
    }
}

/// An event file that is replaced: the old one goes, where there is one.
pub open spec fn event_asset_step(
    sync: AppStoreSync,
    subject: Seq<char>,
    field: EventField,
    current: Seq<MediaAsset>,
    path: Seq<char>,
    size: Option<u64>,
) -> Option<StepView> {
    let there = asset_at(current, field.asset_type_of(), 0);
    if there matches Some(asset) && is_file_at(asset, path, size) {
        None
    } else {
        Some(
            StepView {
                change: ChangeView {
                    kind: ChangeKind::Replace,
                    subject: subject + "."@ + field.key_of(),
                    detail: if field.video() {
                        "replace app event video"@
                    } else {
                        "replace app event image"@
                    },
                },
                requests: match there {
                    Some(asset) => seq![
                        sync.api.delete_view(
                            if field.video() {
                                "/appEventVideoClips/"@ + asset.id@
                            } else {
                                "/appEventScreenshots/"@ + asset.id@
                            },
                        ),
                    ],
                    None => seq![],
                },
            },
        )
    }
}

impl AppStoreSync {
    /// Creates an event, or changes what differs.
    pub fn reconcile_app_event(
        &mut self,
        app_key: &str,
        app_id: &str,
        event_key: &str,
        desired: &ResolvedAppEvent,
        existing: Option<&RemoteResource>,
    ) -> (requests: Vec<ApiRequest>)
        ensures
            ran(
                *old(self),
                *final(self),
                event_step(*old(self), app_key@, app_id@, event_key@, *desired, existing),
                requests@,
            ),
    {
        match existing {
            Some(found) => {
                let attrs = app_event_attrs(desired).differing(&found.attributes);
                if attrs.is_empty() {
                    return no_requests();
                }
                let request = self.api.update_app_event(found.id.as_str(), attrs);
                self.journal.step(
                    ChangeKind::Update,
                    event_name(app_key, event_key),
                    "ensure app event attributes match config",
                    request,
                )
            },
            None => {
                let request = self.api.create_app_event(app_id, desired);
                self.journal.step(
                    ChangeKind::Create,
                    event_name(app_key, event_key),
                    "create app event",
                    request,
                )
            },
        }
    }

    /// Tells what an event that is not there yet will need.
    pub fn record_app_event_children(
        &mut self,
        app_key: &str,
        event_key: &str,
        localizations: &OrderedMap<ResolvedAppEventLocalization>,
        media_by_locale: &OrderedMap<AppEventMediaSpec>,
    )
        ensures
            ran_all(
                *old(self),
                *final(self),
                event_children(app_key@, event_key@, *localizations, *media_by_locale),
                seq![],
            ),
    {
        let ghost start = self.journal;
        let name = event_name(app_key, event_key);
        tell_each(
            &mut self.journal,
            ChangeKind::Create,
            cat(name.as_str(), ".localizations.").as_str(),
            localizations,
            "create app event localization",
        );
        let ghost between = self.journal;
        tell_each(
            &mut self.journal,
            ChangeKind::Replace,
            cat(name.as_str(), ".media.").as_str(),
            media_by_locale,
            "replace app event media",
        );
        proof {
            let none = Seq::<ApiRequest>::empty();
            assert(none + none =~= none);
            lemma_more(
                start,
                between,
                self.journal,
                told_each(
                    ChangeKind::Create,
                    event_subject(app_key@, event_key@) + ".localizations."@,
                    localizations.entries(),
                    "create app event localization"@,
                    localizations.entries().len(),
                ),
                told_each(
                    ChangeKind::Replace,
                    event_subject(app_key@, event_key@) + ".media."@,
                    media_by_locale.entries(),
                    "replace app event media"@,
                    media_by_locale.entries().len(),
                ),
                none,
                none,
            );
        }
    }

    /// Creates an event localization, or changes it where it differs.
    pub fn reconcile_app_event_localization(
        &mut self,
        app_key: &str,
        event_key: &str,
        event_id: &str,
        locale: &str,
        desired: &ResolvedAppEventLocalization,
        existing: Option<&RemoteResource>,
    ) -> (requests: Vec<ApiRequest>)
        ensures
            ran(
                *old(self),
                *final(self),
                event_localization_step(
                    *old(self),
                    app_key@,
                    event_key@,
                    event_id@,
                    locale@,
                    *desired,
                    existing,
                ),
                requests@,
            ),
    {
        let subject = event_name(app_key, event_key).concat(".localizations.").concat(locale);
        match existing {
            Some(found) => {
                if desired.matches(found) {
                    return no_requests();
                }
                let request = self.api.update_app_event_localization(found.id.as_str(), desired);
                self.journal.step(
                    ChangeKind::Update,
                    subject,
                    "ensure app event localization matches config",
                    request,
                )
            },
            None => {
                let request = self.api.create_app_event_localization(event_id, locale, desired);
                self.journal.step(
                    ChangeKind::Create,
                    subject,
                    "ensure app event localization matches config",
                    request,
                )
            },
        }
    }

    /// Replaces a file of an event localization where it differs: the old one is deleted; the
    /// file is sent by the caller.
    pub fn reconcile_app_event_media(
        &mut self,
        app_key: &str,
        event_key: &str,
        locale: &str,
        field: EventField,
        current: &Vec<MediaAsset>,
        path: &str,
        size: Option<u64>,
    ) -> (result: (bool, Vec<ApiRequest>))
        ensures
            ({
                let step = event_asset_step(
                    *old(self),
                    event_subject(app_key@, event_key@) + ".media."@ + locale@,
                    field,
                    current@,
                    path@,
                    size,
                );
                &&& result.0 == (step is Some && old(self).journal.mode == Mode::Apply)
                &&& ran(*old(self), *final(self), step, result.1@)
            }),
    {
        let there = find_asset(current, field.asset_type());
        let mut todo = no_requests();
        if let Some(asset) = there {
            if event_asset_matches_path(asset, path, size) {
                return (false, no_requests());
            }
            let removal = if field.is_video() {
                self.api.delete_app_event_video_clip(asset.id.as_str())
            } else {
                self.api.delete_app_event_screenshot(asset.id.as_str())
            };
            todo.push(removal);
        }
        proof {
            let step = event_asset_step(
                *old(self),
                event_subject(app_key@, event_key@) + ".media."@ + locale@,
                field,
                current@,
                path@,
                size,
            );
            assert(request_views(todo@) =~= step->0.requests);
        }
        let send = self.journal.mode == Mode::Apply;
        let detail = if field.is_video() {
            "replace app event video"
        } else {
            "replace app event image"
        };
        let requests = self.journal.steps(
            ChangeKind::Replace,
            event_name(app_key, event_key).concat(".media.").concat(locale).concat(".").concat(
                field.key(),
            ),
            detail,
            todo,
        );
        (send, requests)
    }
}

/// The file of a field of an event is the one that the media give for that field, videos for the
/// fields of videos and images for those of images.
pub proof fn law_event_fields(field: EventField, media: AppEventMediaSpec)
    ensures
        field == EventField::CardImage ==> field.path_of(media) == owned(media.card_image)
            && field.key_of() == "card_image"@,
        field == EventField::DetailsImage ==> field.path_of(media) == owned(media.details_image)
            && field.key_of() == "details_image"@,
        field == EventField::CardVideo ==> field.path_of(media) == owned(media.card_video)
            && field.key_of() == "card_video"@,
        field == EventField::DetailsVideo ==> field.path_of(media) == owned(media.details_video)
            && field.key_of() == "details_video"@,
        field.video() <==> field == EventField::CardVideo || field == EventField::DetailsVideo,
{
}

} // verus!
