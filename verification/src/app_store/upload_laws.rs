//! What is promised of filled texts, uploads and submissions.

use vstd::prelude::*;
use vstd::relations::{sorted_by, total_ordering};
use vstd::string::*;
use crate::app_store::laws::{source_gives, source_known};
use crate::app_store::reconcile::{info_of_locale, submit_app, submit_version, version_of_locale};
use crate::app_store::requests::AppStoreApi;
use crate::app_store::resolve::{
    glob_meta, safe_segment, ResolveContext, ResolvedAppInfoLocalization, ResolvedReview,
    ResolvedVersionLocalization,
};
use crate::app_store::upload::{
    asset_signature, by_name, file_signature, filed, first_nameless, hex, law_sorting_keeps_files,
    md5_of, mime_of, part_end, part_message, part_start, uploaded, LocalFile, SignatureView,
};
use crate::app_store::{
    AppInfoLocalization, AppStoreVersion, AppStoreVersionLocalization, DeliveryState, HttpHeader,
    MediaAsset, MediaSet, ReviewSubmission, ReviewSubmissionItem, UploadOperation,
};
use crate::config::{
    AppInfoLocalizationSpec, AppPlatform, AppReviewSpec, AppSpec, AppVersionLocalizationSpec,
    AppVersionSpec, Config, KeywordsSpec, StringSource,
};
use crate::ordered::{
    lemma_precedes_irreflexive, lemma_precedes_total, lemma_precedes_transitive, precedes,
};
use crate::paths::{extension_of, file_name_of};
use crate::text::{is_ascii_alnum, lowered, owned, texts};

verus! {

/// The text of a literal source is the literal; that of a variable is its value in the environment
/// or, where it is not set there, in the `.env` file. Where it is set in neither, there is none.
pub proof fn law_sources_are_read(context: ResolveContext, source: StringSource)
    ensures
        source matches StringSource::Literal(value) ==> context.text_of(source) == Ok::<
            Seq<char>,
            Seq<char>,
        >(value@),
        source matches StringSource::Env { env } ==> {
            &&& context.env@.contains_key(env@) ==> context.text_of(source) == Ok::<
                Seq<char>,
                Seq<char>,
            >(context.env@[env@]@)
            &&& !context.env@.contains_key(env@) && context.dotenv@.contains_key(env@)
                ==> context.text_of(source) == Ok::<Seq<char>, Seq<char>>(context.dotenv@[env@]@)
            &&& context.text_of(source) is Err <==> !context.env@.contains_key(env@)
                && !context.dotenv@.contains_key(env@)
        },
        context.lacks(Some(source)) is None <==> context.text_of(source) is Ok,
        context.lacks(None) is None,
{
}

/// Each text of a filled localization of an app info is what its own source gives.
pub proof fn law_info_texts_are_filled(
    context: ResolveContext,
    spec: AppInfoLocalizationSpec,
    made: ResolvedAppInfoLocalization,
)
    requires
        source_known(context, Some(spec.name)),
        source_known(context, spec.subtitle),
        source_known(context, spec.privacy_policy_url),
        source_known(context, spec.privacy_choices_url),
        source_known(context, spec.privacy_policy_text),
        made.filled(context, spec),
    ensures
        source_gives(context, Some(spec.name), Some(made.name@)),
        source_gives(context, spec.subtitle, owned(made.subtitle)),
        spec.subtitle is None ==> made.subtitle is None,
        source_gives(context, spec.privacy_policy_url, owned(made.privacy_policy_url)),
        spec.privacy_policy_url is None ==> made.privacy_policy_url is None,
        source_gives(context, spec.privacy_choices_url, owned(made.privacy_choices_url)),
        spec.privacy_choices_url is None ==> made.privacy_choices_url is None,
        source_gives(context, spec.privacy_policy_text, owned(made.privacy_policy_text)),
        spec.privacy_policy_text is None ==> made.privacy_policy_text is None,
{
}

/// Each text of a filled localization of a version is what its own source gives. Keywords that are
/// listed are joined by commas.
pub proof fn law_version_texts_are_filled(
    context: ResolveContext,
    spec: AppVersionLocalizationSpec,
    made: ResolvedVersionLocalization,
)
    requires
        source_known(context, spec.description),
        source_known(context, spec.marketing_url),
        source_known(context, spec.promotional_text),
        source_known(context, spec.support_url),
        source_known(context, spec.whats_new),
        spec.keywords matches Some(KeywordsSpec::String(source)) ==> source_known(
            context,
            Some(source),
        ),
        made.filled(context, spec),
    ensures
        source_gives(context, spec.description, owned(made.description)),
        spec.description is None ==> made.description is None,
        source_gives(context, spec.marketing_url, owned(made.marketing_url)),
        spec.marketing_url is None ==> made.marketing_url is None,
        source_gives(context, spec.promotional_text, owned(made.promotional_text)),
        spec.promotional_text is None ==> made.promotional_text is None,
        source_gives(context, spec.support_url, owned(made.support_url)),
        spec.support_url is None ==> made.support_url is None,
        source_gives(context, spec.whats_new, owned(made.whats_new)),
        spec.whats_new is None ==> made.whats_new is None,
        spec.keywords is None ==> made.keywords is None,
        spec.keywords matches Some(KeywordsSpec::String(source)) ==> source_gives(
            context,
            Some(source),
            owned(made.keywords),
        ),
        spec.keywords matches Some(KeywordsSpec::List(values)) ==> owned(made.keywords) == Some(
            with_commas(texts(values@)),
        ),
{
    if let Some(KeywordsSpec::List(values)) = spec.keywords {
        lemma_commas(texts(values@));
    }
}

/// Words with a comma between each two.
pub open spec fn with_commas(words: Seq<Seq<char>>) -> Seq<char>
    decreases words.len(),
{
    if words.len() == 0 {
        seq![]
    } else if words.len() == 1 {
        words[0]
    } else {
        words[0] + seq![','] + with_commas(words.skip(1))
    }
}

proof fn lemma_commas(words: Seq<Seq<char>>)
    ensures
        crate::text::joined(words, ","@) == with_commas(words),
    decreases words.len(),
{
    reveal_strlit(",");
    assert(","@ =~= seq![',']);
    if words.len() > 1 {
        lemma_commas(words.drop_last());
        lemma_commas_last(words);
    }
}

proof fn lemma_commas_last(words: Seq<Seq<char>>)
    requires
        words.len() > 1,
    ensures
        with_commas(words) == with_commas(words.drop_last()) + seq![','] + words.last(),
    decreases words.len(),
{
    let rest = words.skip(1);
    if words.len() == 2 {
        assert(with_commas(rest) == words[1]);
        assert(with_commas(words.drop_last()) == words[0]);
    } else {
        lemma_commas_last(rest);
        assert(rest.drop_last() =~= words.drop_last().skip(1));
        assert(with_commas(words) =~= with_commas(words.drop_last()) + seq![','] + words.last());
    }
}

/// Each detail of filled review details is what its own source gives.
pub proof fn law_review_details_are_filled(
    context: ResolveContext,
    spec: AppReviewSpec,
    made: ResolvedReview,
)
    requires
        source_known(context, spec.contact_first_name),
        source_known(context, spec.contact_last_name),
        source_known(context, spec.contact_phone),
        source_known(context, spec.contact_email),
        source_known(context, spec.demo_account_name),
        source_known(context, spec.demo_account_password),
        source_known(context, spec.notes),
        made.filled(context, spec),
    ensures
        source_gives(context, spec.contact_first_name, owned(made.contact_first_name)),
        spec.contact_first_name is None ==> made.contact_first_name is None,
        source_gives(context, spec.contact_last_name, owned(made.contact_last_name)),
        spec.contact_last_name is None ==> made.contact_last_name is None,
        source_gives(context, spec.contact_phone, owned(made.contact_phone)),
        spec.contact_phone is None ==> made.contact_phone is None,
        source_gives(context, spec.contact_email, owned(made.contact_email)),
        spec.contact_email is None ==> made.contact_email is None,
        source_gives(context, spec.demo_account_name, owned(made.demo_account_name)),
        spec.demo_account_name is None ==> made.demo_account_name is None,
        source_gives(context, spec.demo_account_password, owned(made.demo_account_password)),
        spec.demo_account_password is None ==> made.demo_account_password is None,
        source_gives(context, spec.notes, owned(made.notes)),
        spec.notes is None ==> made.notes is None,
        made.demo_account_required == spec.demo_account_required,
{
}

/// A safe segment is as long as the text, keeps its letters, digits, dashes, underscores and dots, has
/// a dash for everything else, and is its own safe segment.
pub proof fn law_safe_segments(value: Seq<char>)
    ensures
        safe_segment(value).len() == value.len(),
        forall|i: int|
            #![trigger value[i]]
            0 <= i < value.len() ==> {
                let c = value[i];
                if is_ascii_alnum(c) || c == '-' || c == '_' || c == '.' {
                    safe_segment(value)[i] == c
                } else {
                    safe_segment(value)[i] == '-'
                }
            },
        safe_segment(safe_segment(value)) == safe_segment(value),
{
    assert(safe_segment(safe_segment(value)) =~= safe_segment(value));
}

/// A file of the account is a given one: its name and the checksum of its bytes.
pub open spec fn is_upload_of(asset: MediaAsset, file: LocalFile) -> bool {
    &&& file_name_of(file.path@) is Some
    &&& (match asset.attributes.file_name {
        Some(name) => name@,
        None => seq![],
    }) == file_name_of(file.path@)->0
    &&& owned(asset.attributes.source_file_checksum) == Some(hex(md5_of(file.bytes@)))
}

/// Where order counts, the uploaded files are the given ones just where each of them is the given one
/// at its place.
pub proof fn law_ordered_uploads(current: Seq<MediaAsset>, files: Seq<LocalFile>)
    ensures
        uploaded(true, current, files) == Ok::<bool, Seq<char>>(true) <==> current.len()
            == files.len() && forall|i: int|
            0 <= i < files.len() ==> is_upload_of(#[trigger] current[i], files[i]),
{
    let there = current.map_values(|asset: MediaAsset| asset_signature(asset));
    let here = files.map_values(|file: LocalFile| file_signature(file));
    lemma_first_nameless(files, 0);
    if current.len() == files.len() {
        if there == here && first_nameless(files, 0) is None {
            assert forall|i: int| 0 <= i < files.len() implies is_upload_of(
                #[trigger] current[i],
                files[i],
            ) by {
                assert(there[i] == asset_signature(current[i]));
                assert(here[i] == file_signature(files[i]));
                assert(file_name_of(files[i].path@) is Some);
            }
        }
        if forall|i: int| 0 <= i < files.len() ==> is_upload_of(#[trigger] current[i], files[i]) {
            assert forall|i: int| 0 <= i < files.len() implies there[i] == here[i] by {
                assert(is_upload_of(current[i], files[i]));
            }
            assert(there =~= here);
            assert forall|i: int| 0 <= i < files.len() implies file_name_of(
                (#[trigger] files[i]).path@,
            ) is Some by {
                assert(is_upload_of(current[i], files[i]));
            }
        }
    }
}

proof fn lemma_first_nameless(files: Seq<LocalFile>, i: int)
    requires
        0 <= i,
    ensures
        first_nameless(files, i) is None <==> forall|k: int|
            i <= k < files.len() ==> file_name_of((#[trigger] files[k]).path@) is Some,
    decreases files.len() - i,
{
    if i < files.len() {
        lemma_first_nameless(files, i + 1);
        if file_name_of(files[i].path@) is Some && first_nameless(files, i + 1) is None {
            assert forall|k: int| i <= k < files.len() implies file_name_of(
                (#[trigger] files[k]).path@,
            ) is Some by {
                if k > i {
                }
            }
        }
    }
}

/// The signature of an uploaded file, from what the API tells.
pub open spec fn told_signature(asset: MediaAsset) -> SignatureView {
    SignatureView {
        name: match asset.attributes.file_name {
            Some(name) => name@,
            None => seq![],
        },
        checksum: owned(asset.attributes.source_file_checksum),
    }
}

/// The signature that a file will have once it is uploaded.
pub open spec fn own_signature(file: LocalFile) -> SignatureView {
    SignatureView {
        name: match file_name_of(file.path@) {
            Some(name) => name,
            None => seq![],
        },
        checksum: Some(hex(md5_of(file.bytes@))),
    }
}

/// Where order does not count, uploaded files that are the given ones have the names and checksums of
/// the given ones, each as often. Files that are the given ones at their places are the given ones in
/// any order too.
pub proof fn law_unordered_uploads(current: Seq<MediaAsset>, files: Seq<LocalFile>)
    ensures
        uploaded(false, current, files) == Ok::<bool, Seq<char>>(true) ==> current.len()
            == files.len() && current.map_values(
            |asset: MediaAsset| told_signature(asset),
        ).to_multiset() == files.map_values(|file: LocalFile| own_signature(file)).to_multiset(),
        uploaded(true, current, files) == Ok::<bool, Seq<char>>(true) ==> uploaded(
            false,
            current,
            files,
        ) == Ok::<bool, Seq<char>>(true),
        current.len() != files.len() ==> uploaded(false, current, files) == Ok::<bool, Seq<char>>(
            false,
        ) && uploaded(true, current, files) == Ok::<bool, Seq<char>>(false),
{
    let there = current.map_values(|asset: MediaAsset| asset_signature(asset));
    let here = files.map_values(|file: LocalFile| file_signature(file));
    law_sorting_keeps_files(there);
    law_sorting_keeps_files(here);
    assert(there =~= current.map_values(|asset: MediaAsset| told_signature(asset)));
    assert(here =~= files.map_values(|file: LocalFile| own_signature(file)));
}

/// Previews are MPEG-4 or QuickTime videos, told by their extension in any case.
pub proof fn law_preview_types(path: Seq<char>, extension: Seq<char>)
    requires
        extension_of(path) == Some(extension),
    ensures
        lowered(extension) == "mp4"@ ==> mime_of(path) == Some("video/"@ + lowered(extension)),
        lowered(extension) == "m4v"@ ==> mime_of(path) == Some("video/x-"@ + lowered(extension)),
        lowered(extension) == "mov"@ ==> mime_of(path) == Some("video/quicktime"@),
        mime_of(path) is Some <==> lowered(extension) == "mp4"@ || lowered(extension) == "m4v"@
            || lowered(extension) == "mov"@,
{
    reveal_strlit("mp4");
    reveal_strlit("m4v");
    reveal_strlit("mov");
    reveal_strlit("video/");
    reveal_strlit("video/x-");
    reveal_strlit("video/mp4");
    reveal_strlit("video/x-m4v");
    assert("mp4"@[1] == 'p' && "m4v"@[1] == '4' && "mov"@[1] == 'o');
    assert("video/"@ + "mp4"@ =~= "video/mp4"@);
    assert("video/x-"@ + "m4v"@ =~= "video/x-m4v"@);
}

/// A part that can be sent lies within the file, starts at its offset and has its length; without a
/// length it is the rest of the file. Every part that lies within the file and has an address can be
/// sent.
pub proof fn law_parts_lie_in_the_file(operation: UploadOperation, size: int)
    requires
        0 <= size <= usize::MAX,
    ensures
        ({
            let start = part_start(operation);
            let end = part_end(operation, size);
            &&& operation.offset matches Some(offset) ==> start == offset
            &&& operation.offset is None ==> start == 0
            &&& operation.length matches Some(length) ==> end - start == length
            &&& operation.length is None && start <= size ==> end == size
            &&& part_message(operation, size) is None <==> 0 <= start <= end <= size
                && operation.url is Some
        }),
{
}

/// The headers that are sent are those that have both a name and a value, and no others.
pub proof fn law_whole_headers_are_sent(headers: Seq<HttpHeader>,
    n: nat, name: Seq<char>, value: Seq<char>)
    requires
        n <= headers.len(),
    ensures
        UploadOperation::headers_of(headers, n).contains((name, value)) <==> exists|i: int|
            0 <= i < n && owned((#[trigger] headers[i]).name) == Some(name) && owned(
                headers[i].value,
            ) == Some(value),
    decreases n,
{
    if n > 0 {
        law_whole_headers_are_sent(headers, (n - 1) as nat, name, value);
        let before = UploadOperation::headers_of(headers, (n - 1) as nat);
        let after = UploadOperation::headers_of(headers, n);
        if after != before {
            assert(after == before.push((headers[n - 1].name->0@, headers[n - 1].value->0@)));
            assert(after[after.len() - 1] == (
                headers[n - 1].name->0@,
                headers[n - 1].value->0@,
            ));
            if before.contains((name, value)) {
                let i = choose|i: int| 0 <= i < before.len() && before[i] == (name, value);
                assert(after[i] == (name, value));
            }
            if after.contains((name, value)) {
                let i = choose|i: int| 0 <= i < after.len() && after[i] == (name, value);
                if i < before.len() {
                    assert(before[i] == (name, value));
                }
            }
        }
    }
}

/// Processing with an error is never done; without one it is done in a final state, and where no
/// state is told.
pub proof fn law_processing_is_done(state: DeliveryState)
    ensures
        state.errors matches Some(errors) && errors@.len() > 0 ==> !state.complete(),
        !(state.errors matches Some(errors) && errors@.len() > 0) ==> (state.complete() <==> (
        state.state is None || owned(state.state) == Some("COMPLETE"@) || owned(state.state)
            == Some(
            "UPLOADED"@,
        ) || owned(state.state) == Some("READY"@))),
{
}

/// A version that is on sale, was taken off sale or was replaced is closed, by either of its states;
/// a version in one of the states before a release is open.
pub proof fn law_versions_on_sale_are_closed(version: AppStoreVersion)
    ensures
        ({
            let store = owned(version.attributes.app_store_state);
            let state = owned(version.attributes.app_version_state);
            &&& store == Some("READY_FOR_SALE"@) ==> !version.editable()
            &&& store == Some("PREORDER_READY_FOR_SALE"@) ==> !version.editable()
            &&& store == Some("DEVELOPER_REMOVED_FROM_SALE"@) ==> !version.editable()
            &&& store == Some("REMOVED_FROM_SALE"@) ==> !version.editable()
            &&& store == Some("REPLACED_WITH_NEW_VERSION"@) ==> !version.editable()
            &&& state == Some("READY_FOR_DISTRIBUTION"@) ==> !version.editable()
            &&& state == Some("REPLACED_WITH_NEW_VERSION"@) ==> !version.editable()
            &&& before_release(store) && before_release(state) ==> version.editable()
        }),
{
    reveal_strlit("READY_FOR_SALE");
    reveal_strlit("PREORDER_READY_FOR_SALE");
    reveal_strlit("DEVELOPER_REMOVED_FROM_SALE");
    reveal_strlit("REMOVED_FROM_SALE");
    reveal_strlit("REPLACED_WITH_NEW_VERSION");
    reveal_strlit("READY_FOR_DISTRIBUTION");
    reveal_strlit("PREPARE_FOR_SUBMISSION");
    reveal_strlit("WAITING_FOR_REVIEW");
    reveal_strlit("IN_REVIEW");
    reveal_strlit("REJECTED");
    reveal_strlit("METADATA_REJECTED");
    reveal_strlit("DEVELOPER_REJECTED");
    reveal_strlit("PENDING_DEVELOPER_RELEASE");
    reveal_strlit("INVALID_BINARY");
    reveal_strlit("READY_FOR_REVIEW");
    let names = seq![
        "READY_FOR_SALE"@,
        "PREORDER_READY_FOR_SALE"@,
        "DEVELOPER_REMOVED_FROM_SALE"@,
        "REMOVED_FROM_SALE"@,
        "REPLACED_WITH_NEW_VERSION"@,
        "READY_FOR_DISTRIBUTION"@,
    ];
    assert(names[0].len() == 14 && names[1].len() == 23 && names[2].len() == 27 && names[3].len()
        == 17
        && names[4].len() == 25 && names[5].len() == 22);
    assert(names[5][0] == 'R' && names[4][1] == 'E' && names[4][0] == 'R');
    assert("PREPARE_FOR_SUBMISSION"@.len() == 22 && "PREPARE_FOR_SUBMISSION"@[0] == 'P');
    assert("WAITING_FOR_REVIEW"@.len() == 18 && "WAITING_FOR_REVIEW"@[0] == 'W');
    assert("IN_REVIEW"@.len() == 9 && "IN_REVIEW"@[0] == 'I');
    assert("REJECTED"@.len() == 8 && "REJECTED"@[0] == 'R');
    assert("METADATA_REJECTED"@.len() == 17 && "METADATA_REJECTED"@[0] == 'M');
    assert("DEVELOPER_REJECTED"@.len() == 18 && "DEVELOPER_REJECTED"@[0] == 'D');
    assert("PENDING_DEVELOPER_RELEASE"@.len() == 25 && "PENDING_DEVELOPER_RELEASE"@[0] == 'P');
    assert("INVALID_BINARY"@.len() == 14 && "INVALID_BINARY"@[0] == 'I');
    assert("READY_FOR_REVIEW"@.len() == 16 && "READY_FOR_REVIEW"@[0] == 'R');
}

/// No state, or one before a release.
pub open spec fn before_release(state: Option<Seq<char>>) -> bool {
    match state {
        None => true,
        Some(name) => name == "PREPARE_FOR_SUBMISSION"@
            || name == "WAITING_FOR_REVIEW"@
            || name == "IN_REVIEW"@
            || name == "REJECTED"@
            || name == "METADATA_REJECTED"@
            || name == "DEVELOPER_REJECTED"@
            || name == "PENDING_DEVELOPER_RELEASE"@
            || name == "INVALID_BINARY"@
            || name == "READY_FOR_REVIEW"@,
    }
}

/// The localization that is found has the locale and is the last that has it; where none is found,
/// none has it.
pub proof fn law_info_localizations_are_found(
    current: Seq<AppInfoLocalization>,
    locale: Seq<char>,
    n: nat,
)
    requires
        n <= current.len(),
    ensures
        match info_of_locale(current, locale, n) {
            Some(found) => exists|i: int|
                0 <= i < n && found == #[trigger] current[i] && current[i].attributes.locale@
                    == locale && forall|j: int|
                    i < j < n ==> (#[trigger] current[j]).attributes.locale@ != locale,
            None => forall|i: int|
                0 <= i < n ==> (#[trigger] current[i]).attributes.locale@ != locale,
        },
    decreases n,
{
    if n > 0 {
        if current[n - 1].attributes.locale@ == locale {
            assert(info_of_locale(current, locale, n) == Some(current[n - 1]));
        } else {
            law_info_localizations_are_found(current, locale, (n - 1) as nat);
            if let Some(found) = info_of_locale(current, locale, (n - 1) as nat) {
                let i = choose|i: int|
                    0 <= i < n - 1 && found == #[trigger] current[i]
                        && current[i].attributes.locale@ == locale && forall|j: int|
                        i < j < n - 1 ==> (#[trigger] current[j]).attributes.locale@ != locale;
                assert(found == current[i]);
            }
        }
    }
}

/// The localization that is found has the locale and is the last that has it; where none is found,
/// none has it.
pub proof fn law_version_localizations_are_found(
    current: Seq<AppStoreVersionLocalization>,
    locale: Seq<char>,
    n: nat,
)
    requires
        n <= current.len(),
    ensures
        match version_of_locale(current, locale, n) {
            Some(found) => exists|i: int|
                0 <= i < n && found == #[trigger] current[i] && current[i].attributes.locale@
                    == locale && forall|j: int|
                    i < j < n ==> (#[trigger] current[j]).attributes.locale@ != locale,
            None => forall|i: int|
                0 <= i < n ==> (#[trigger] current[i]).attributes.locale@ != locale,
        },
    decreases n,
{
    if n > 0 {
        if current[n - 1].attributes.locale@ == locale {
            assert(version_of_locale(current, locale, n) == Some(current[n - 1]));
        } else {
            law_version_localizations_are_found(current, locale, (n - 1) as nat);
            if let Some(found) = version_of_locale(current, locale, (n - 1) as nat) {
                let i = choose|i: int|
                    0 <= i < n - 1 && found == #[trigger] current[i]
                        && current[i].attributes.locale@ == locale && forall|j: int|
                        i < j < n - 1 ==> (#[trigger] current[j]).attributes.locale@ != locale;
                assert(found == current[i]);
            }
        }
    }
}

/// The media set that is found is of the type and none before it is; where none is found, none is.
pub proof fn law_media_sets_are_found_by_type(
    sets: Seq<MediaSet>,
    media_type: Seq<char>,
    from: int,
)
    requires
        from >= 0,
    ensures
        match AppStoreApi::first_set(sets, media_type, from) {
            Some(i) => from <= i < sets.len() && sets[i].media_type@ == media_type && forall|j: int|
                from <= j < i ==> (#[trigger] sets[j]).media_type@ != media_type,
            None => forall|i: int|
                from <= i < sets.len() ==> (#[trigger] sets[i]).media_type@ != media_type,
        },
    decreases sets.len() - from,
{
    if from < sets.len() && sets[from].media_type@ != media_type {
        law_media_sets_are_found_by_type(sets, media_type, from + 1);
    }
}

/// The submission that is found is ready for review and none before it is; where none is found, none
/// is.
pub proof fn law_open_submissions_are_found(submissions: Seq<ReviewSubmission>, from: int)
    requires
        from >= 0,
    ensures
        match AppStoreApi::first_open(submissions, from) {
            Some(i) => from <= i < submissions.len() && owned(submissions[i].attributes.state)
                == Some("READY_FOR_REVIEW"@) && forall|j: int|
                from <= j < i ==> owned((#[trigger] submissions[j]).attributes.state) != Some(
                    "READY_FOR_REVIEW"@,
                ),
            None => forall|i: int|
                from <= i < submissions.len() ==> owned(
                    (#[trigger] submissions[i]).attributes.state,
                ) != Some("READY_FOR_REVIEW"@),
        },
    decreases submissions.len() - from,
{
    if from < submissions.len() && owned(submissions[from].attributes.state) != Some(
        "READY_FOR_REVIEW"@,
    ) {
        law_open_submissions_are_found(submissions, from + 1);
    }
}

/// An item submits the version that its own relationship leads to.
pub proof fn law_items_name_their_versions(item: ReviewSubmissionItem, id: Seq<char>)
    ensures
        AppStoreApi::item_version(item) == Some(id) <==> (item.relationships matches Some(links)
            && links.app_store_version matches Some(link) && link.data matches Some(data)
                && data.id@
            == id),
{
}

/// A submission that names an app is about that app, and fails where the configuration does not have
/// it. One that names none is about the only app, and fails where there is not just one.
pub proof fn law_submissions_are_about_one_app(config: Config, explicit: Option<Seq<char>>)
    ensures
        explicit matches Some(key) ==> {
            &&& submit_app(config, explicit) is Ok <==> config.apps@.contains_key(key)
            &&& config.apps@.contains_key(key) ==> submit_app(config, explicit) == Ok::<
                (Seq<char>, AppSpec),
                Seq<char>,
            >((key, config.apps@[key]))
        },
        explicit is None ==> {
            &&& submit_app(config, explicit) is Ok <==> config.apps.entries().len() == 1
            &&& config.apps.entries().len() == 1 ==> submit_app(config, explicit) == Ok::<
                (Seq<char>, AppSpec),
                Seq<char>,
            >(config.apps.entries()[0])
        },
{
}

/// A submission that names a platform is about the version for it, and fails where the app does not
/// have it. One that names none is about the only platform, and fails where there is not just one.
pub proof fn law_submissions_are_about_one_version(
    app_key: Seq<char>,
    app: AppSpec,
    explicit: Option<AppPlatform>,
)
    ensures
        explicit matches Some(platform) ==> {
            &&& submit_version(app_key, app, explicit) is Ok <==> app.platforms@.contains_key(
                platform,
            )
            &&& app.platforms@.contains_key(platform) ==> submit_version(app_key, app, explicit)
                == Ok::<(AppPlatform, AppVersionSpec), Seq<char>>(
                (platform, app.platforms@[platform].version),
            )
        },
        explicit is None ==> {
            &&& submit_version(app_key, app, explicit) is Ok <==> app.platforms.entries().len() == 1
            &&& app.platforms.entries().len() == 1 ==> submit_version(app_key, app, explicit)
                == Ok::<(AppPlatform, AppVersionSpec), Seq<char>>(
                (app.platforms.entries()[0].0, app.platforms.entries()[0].1.version),
            )
        },
{
}

/// A path is a pattern just where it has one of the three characters of patterns.
pub proof fn law_patterns_have_a_wildcard(value: Seq<char>)
    ensures
        glob_meta(value) <==> exists|i: int|
            0 <= i < value.len() && (#[trigger] value[i] == '*' || value[i] == '?' || value[i]
                == '['),
{
    if value.contains('*') {
        let i = choose|i: int| 0 <= i < value.len() && value[i] == '*';
        assert(value[i] == '*');
    }
    if value.contains('?') {
        let i = choose|i: int| 0 <= i < value.len() && value[i] == '?';
        assert(value[i] == '?');
    }
    if value.contains('[') {
        let i = choose|i: int| 0 <= i < value.len() && value[i] == '[';
        assert(value[i] == '[');
    }
}

/// Headers are sent in the order in which they are told, each once.
pub proof fn law_headers_are_in_order(
    entries: Seq<HttpHeader>,
    n: nat,
    m: nat,
)
    requires
        n <= m <= entries.len(),
    ensures
        UploadOperation::headers_of(entries, n).len() <= UploadOperation::headers_of(entries,
            m).len() <= UploadOperation::headers_of(entries, n).len() + (m - n),
        UploadOperation::headers_of(entries, m).take(UploadOperation::headers_of(entries,
            n).len() as int) == UploadOperation::headers_of(entries, n),
    decreases m,
{
    let before = UploadOperation::headers_of(entries, n);
    if n < m {
        law_headers_are_in_order(entries, n, (m - 1) as nat);
        let middle = UploadOperation::headers_of(entries, (m - 1) as nat);
        let after = UploadOperation::headers_of(entries, m);
        assert(after.take(before.len() as int) =~= middle.take(before.len() as int));
    } else {
        assert(before.take(before.len() as int) =~= before);
    }
}

/// No name of a row precedes one that stands before it.
pub open spec fn names_ascend(row: Seq<SignatureView>) -> bool {
    forall|i: int, j: int|
        #![trigger row[i], row[j]]
        0 <= i < j < row.len() ==> !precedes(row[j].name, row[i].name)
}

proof fn lemma_filed(row: Seq<SignatureView>, item: SignatureView)
    requires
        names_ascend(row),
    ensures
        names_ascend(filed(row, item)),
        forall|i: int|
            0 <= i < filed(row, item).len() ==> #[trigger] filed(row, item)[i] == item
                || row.contains(filed(row, item)[i]),
    decreases row.len(),
{
    let all = filed(row, item);
    if row.len() > 0 && precedes(item.name, row.last().name) {
        let rest = row.drop_last();
        assert(names_ascend(rest)) by {
            assert forall|i: int, j: int|
                #![trigger rest[i], rest[j]]
                0 <= i < j < rest.len() implies !precedes(rest[j].name, rest[i].name) by {
                assert(rest[i] == row[i] && rest[j] == row[j]);
            }
        }
        lemma_filed(rest, item);
        let inner = filed(rest, item);
        assert forall|i: int| 0 <= i < inner.len() implies !precedes(
            row.last().name,
            (#[trigger] inner[i]).name,
        ) && (inner[i] == item || row.contains(inner[i])) by {
            if inner[i] == item {
                if precedes(row.last().name, item.name) {
                    lemma_precedes_transitive(item.name, row.last().name, item.name);
                    lemma_precedes_irreflexive(item.name);
                }
            } else {
                let k = choose|k: int| 0 <= k < rest.len() && rest[k] == inner[i];
                assert(row[k] == inner[i]);
                assert(row[row.len() - 1] == row.last());
            }
        }
        assert forall|i: int| 0 <= i < all.len() implies #[trigger] all[i] == item
            || row.contains(all[i]) by {
            if i < inner.len() {
                assert(all[i] == inner[i]);
            } else {
                assert(row[row.len() - 1] == all[i]);
            }
        }
        assert forall|i: int, j: int|
            #![trigger all[i], all[j]]
            0 <= i < j < all.len() implies !precedes(all[j].name, all[i].name) by {
            assert(all[i] == inner[i]);
            if j < inner.len() {
                assert(all[j] == inner[j]);
            }
        }
    } else {
        assert forall|i: int| 0 <= i < all.len() implies #[trigger] all[i] == item
            || row.contains(all[i]) by {
            if i < row.len() {
                assert(row[i] == all[i]);
            }
        }
        assert forall|i: int, j: int|
            #![trigger all[i], all[j]]
            0 <= i < j < all.len() implies !precedes(all[j].name, all[i].name) by {
            assert(all[i] == row[i]);
            if j < row.len() {
                assert(all[j] == row[j]);
            } else if precedes(item.name, row[i].name) {
                let last = row[row.len() - 1];
                assert(last == row.last());
                if i < row.len() - 1 {
                    assert(!precedes(last.name, row[i].name));
                    lemma_precedes_total(row[i].name, last.name);
                    if precedes(row[i].name, last.name) {
                        lemma_precedes_transitive(item.name, row[i].name, last.name);
                    }
                }
            }
        }
    }
}

/// A row that is sorted by name has its names in their order.
pub proof fn law_sorted_names_ascend(row: Seq<SignatureView>)
    ensures
        names_ascend(by_name(row)),
    decreases row.len(),
{
    if row.len() > 0 {
        law_sorted_names_ascend(row.drop_last());
        lemma_filed(by_name(row.drop_last()), row.last());
    }
}

/// Checksums in an order: none first.
spec fn checksum_before(a: Option<Seq<char>>, b: Option<Seq<char>>) -> bool {
    match (a, b) {
        (None, _) => true,
        (Some(_), None) => false,
        (Some(x), Some(y)) => x == y || precedes(x, y),
    }
}

/// Signatures in an order: by their names, and those of one name by their checksums.
spec fn signature_before(a: SignatureView, b: SignatureView) -> bool {
    precedes(a.name, b.name) || (a.name == b.name && checksum_before(a.checksum, b.checksum))
}

proof fn lemma_signatures_are_ordered()
    ensures
        total_ordering(|a: SignatureView, b: SignatureView| signature_before(a, b)),
{
    let leq = |a: SignatureView, b: SignatureView| signature_before(a, b);
    assert forall|x: SignatureView| #[trigger] leq(x, x) by {}
    assert forall|x: SignatureView, y: SignatureView| #[trigger] leq(x, y) && #[trigger] leq(
        y,
        x,
    ) implies x == y by {
        lemma_never_both(x.name, y.name);
        if let (Some(a), Some(b)) = (x.checksum, y.checksum) {
            lemma_never_both(a, b);
        }
        assert(x.name == y.name && x.checksum == y.checksum);
    }
    assert forall|x: SignatureView, y: SignatureView, z: SignatureView| #[trigger]
        leq(x, y) && #[trigger] leq(y, z) implies leq(x, z) by {
        if precedes(x.name, y.name) && precedes(y.name, z.name) {
            lemma_precedes_transitive(x.name, y.name, z.name);
        }
        if let (Some(a), Some(b)) = (x.checksum, y.checksum) {
            if let Some(c) = z.checksum {
                if precedes(a, b) && precedes(b, c) {
                    lemma_precedes_transitive(a, b, c);
                }
            }
        }
    }
    assert forall|x: SignatureView, y: SignatureView| #[trigger] leq(x, y) || #[trigger] leq(
        y,
        x,
    ) by {
        lemma_precedes_total(x.name, y.name);
        if let (Some(a), Some(b)) = (x.checksum, y.checksum) {
            lemma_precedes_total(a, b);
        }
    }
}

proof fn lemma_never_both(a: Seq<char>, b: Seq<char>)
    ensures
        !(precedes(a, b) && precedes(b, a)),
        !precedes(a, a),
{
    lemma_precedes_irreflexive(a);
    if precedes(a, b) && precedes(b, a) {
        lemma_precedes_transitive(a, b, a);
    }
}

/// Each name of a row is there once.
pub open spec fn names_differ(row: Seq<SignatureView>) -> bool {
    forall|i: int, j: int|
        #![trigger row[i], row[j]]
        0 <= i < j < row.len() ==> row[i].name != row[j].name
}

proof fn lemma_sorted_row(row: Seq<SignatureView>)
    requires
        names_differ(row),
    ensures
        sorted_by(by_name(row), |a: SignatureView, b: SignatureView| signature_before(a, b)),
{
    broadcast use vstd::seq_lib::group_to_multiset_ensures;

    let leq = |a: SignatureView, b: SignatureView| signature_before(a, b);
    let all = by_name(row);
    law_sorted_names_ascend(row);
    law_sorting_keeps_files(row);
    assert(row.no_duplicates()) by {
        assert forall|i: int, j: int|
            0 <= i < row.len() && 0 <= j < row.len() && i != j implies row[i] != row[j] by {
            if i < j {
                assert(row[i].name != row[j].name);
            } else {
                assert(row[j].name != row[i].name);
            }
        }
    }
    row.lemma_multiset_has_no_duplicates();
    all.lemma_multiset_has_no_duplicates_conv();
    assert forall|i: int, j: int| 0 <= i < j < all.len() implies #[trigger] leq(all[i], all[j]) by {
        assert(!precedes(all[j].name, all[i].name));
        lemma_precedes_total(all[i].name, all[j].name);
        if all[i].name == all[j].name {
            assert(all.to_multiset().contains(all[i]));
            assert(all.to_multiset().contains(all[j]));
            assert(row.contains(all[i]) && row.contains(all[j]));
            let a = choose|a: int| 0 <= a < row.len() && row[a] == all[i];
            let b = choose|b: int| 0 <= b < row.len() && row[b] == all[j];
            assert(all[i] != all[j]);
            if a < b {
                assert(row[a].name != row[b].name);
            } else if b < a {
                assert(row[b].name != row[a].name);
            }
        }
    }
}

/// Where order does not count, files that were uploaded in another order are the given ones, where
/// each of them has a name of its own.
pub proof fn law_uploads_in_any_order(current: Seq<MediaAsset>, files: Seq<LocalFile>)
    requires
        current.len() == files.len(),
        forall|i: int| 0 <= i < files.len() ==> file_name_of((#[trigger] files[i]).path@) is Some,
        names_differ(files.map_values(|file: LocalFile| own_signature(file))),
        names_differ(current.map_values(|asset: MediaAsset| told_signature(asset))),
        current.map_values(|asset: MediaAsset| told_signature(asset)).to_multiset()
            == files.map_values(|file: LocalFile| own_signature(file)).to_multiset(),
    ensures
        uploaded(false, current, files) == Ok::<bool, Seq<char>>(true),
{
    let leq = |a: SignatureView, b: SignatureView| signature_before(a, b);
    let there = current.map_values(|asset: MediaAsset| told_signature(asset));
    let here = files.map_values(|file: LocalFile| own_signature(file));
    assert(there =~= current.map_values(|asset: MediaAsset| asset_signature(asset)));
    assert(here =~= files.map_values(|file: LocalFile| file_signature(file)));
    lemma_first_nameless(files, 0);
    lemma_sorted_row(there);
    lemma_sorted_row(here);
    law_sorting_keeps_files(there);
    law_sorting_keeps_files(here);
    lemma_signatures_are_ordered();
    vstd::seq_lib::lemma_sorted_unique(by_name(there), by_name(here), leq);
}

} // verus!
