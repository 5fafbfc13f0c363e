//! What is promised of rendered screenshots.

use vstd::prelude::*;
use vstd::string::*;
use crate::app_store::laws::source_known;
use crate::app_store::resolve::ResolveContext;
use crate::app_store::upload::{hex, md5_of};
use crate::config::{AppVersionLocalizationSpec, KeywordsSpec, MediaScreenshotSet};
use crate::json::{json_view, member, Json, JsonView};
use crate::media_render::assets::{
    asset_at, cache_path_message, fetched_message, frame_dirs, is_asset, needed_assets, AssetView,
    FrameAssetManifestFile,
};
use crate::media_render::chrome::{
    browser_below, browser_names, browser_options, first_page, page_address, screenshot_of,
    with_browser, with_browsers, with_paths, with_unique,
};
use crate::media_render::compose::{
    dimmed, fits_as, half_excess, offset_of, over_white, scaled_to, seen_at,
};
use crate::media_render::data::{
    env_key, resolved, resolved_items, values_message, version_message, version_texts, with_values,
};
use crate::media_render::frame::{
    asked_size, named_size, store_size, written_size, FrameFit, RenderContext, Viewport,
};
use crate::media_render::inputs::{
    canonical_of, input_checks, inputs_message, instance_of, screens_message, InputFile, InputKind,
};
use crate::media_render::metadata::{
    field_number, field_rectangle, known_bounds, metadata_of, named,
};
use crate::media_render::percent::{directory_address, file_address,
    percent_encoded, template_address};
use crate::media_render::pixels::{Raster, Rect};
use crate::media_render::placeholder::{attribute, fit_of};
use crate::media_render::preview::{
    before, behind, index_of_text, lies_in, media_type, requested, routed, small_extension,
    status_words, walked, RouteView,
};
use crate::media_render::screen::shown_at;
use crate::media_render::template::{
    filled, filled_from, looked_up, payload_view, prepared, scalar_text, variable_text, DataView,
    HtmlTemplate, TemplateInstance,
};
use crate::ordered::OrderedMap;
use crate::paths::under;
use crate::text::{
    decimal, ends, first_place, lemma_decimal_value, lemma_first_message_none, lemma_first_place,
    occurs, occurs_at, owned, parsed_number, pieces, starts, trimmed,
};

verus! {

/// What is cut off on one side is half of what is too much, and nothing is cut off where nothing is
/// too much.
pub proof fn law_excess_is_halved(a: u32, b: u32)
    ensures
        a <= b ==> half_excess(a, b) == 0,
        a > b ==> 0 <= 2 * half_excess(a, b) <= a - b <= 2 * half_excess(a, b) + 1,
{
}

/// A screenshot that fills its screen has the size of the screen; one that is contained in it has the
/// size that it was brought to; one that covers it is cut at both sides alike, to the size of the
/// screen where it is that large.
pub proof fn law_fitted_sizes(
    fitted: Raster,
    screen: Raster,
    rect: Rect,
    fit: FrameFit,
    scaled: (u32, u32),
)
    requires
        fits_as(fitted, screen, rect, fit, scaled),
    ensures
        fit is Fill ==> fitted.width == rect.width && fitted.height == rect.height,
        fit is Contain ==> fitted.width == scaled.0 && fitted.height == scaled.1,
        fit is Cover && scaled.0 >= rect.width ==> fitted.width == rect.width,
        fit is Cover && scaled.1 >= rect.height ==> fitted.height == rect.height,
        fit is Cover && scaled.0 < rect.width ==> fitted.width == scaled.0,
        fit is Cover && scaled.1 < rect.height ==> fitted.height == scaled.1,
        fit is Cover ==> exists|resized: Raster| #[trigger]
            scaled_to(resized, screen, scaled.0, scaled.1) && forall|x: int, y: int|
                #![trigger fitted.pixel(x, y)]
                fitted.within(x, y) ==> fitted.pixel(x, y) == resized.pixel(
                    x + half_excess(scaled.0, rect.width),
                    y + half_excess(scaled.1, rect.height),
                ),
{
}

/// An image that is put into a screen stands in its middle.
pub proof fn law_images_stand_in_the_middle(start: u32, screen: u32, side: u32)
    ensures
        side <= screen ==> {
            let before = offset_of(start, screen, side) - start;
            let after = start + screen - (offset_of(start, screen, side) + side);
            0 <= before <= after <= before + 1
        },
        side > screen ==> offset_of(start, screen, side) == start,
{
}

/// A pixel that is dimmed keeps its colour; fully shown it stays, not shown at all it is clear, and it
/// never gets less clear.
pub proof fn law_dimming(pixel: Seq<u8>, shown: u8)
    requires
        pixel.len() == 4,
    ensures
        dimmed(pixel, shown).len() == 4,
        dimmed(pixel, shown)[0] == pixel[0],
        dimmed(pixel, shown)[1] == pixel[1],
        dimmed(pixel, shown)[2] == pixel[2],
        dimmed(pixel, 255) == pixel,
        dimmed(pixel, 0)[3] == 0,
        dimmed(pixel, shown)[3] <= pixel[3],
{
    let a = pixel[3] as int;
    let b = shown as int;
    assert(0 <= a * b <= a * 255) by (nonlinear_arith)
        requires
            0 <= a <= 255,
            0 <= b <= 255,
    ;
    assert(a * 255 / 255 == a);
    assert(a * b / 255 <= a);
    assert((a * b / 255) as u8 == a * b / 255);
    assert(dimmed(pixel, 255) =~= pixel);
}

/// Through a frame with a screen a screenshot shows just where the screen is, as much as the frame
/// lets through; through one without, in the given rectangle.
pub proof fn law_screens_show(frame: Raster, fallback: Rect, x: int, y: int)
    ensures
        frame.has_screen() && frame.screen(x, y) ==> shown_at(frame, fallback, x, y) + frame.alpha(
            x,
            y,
        ) == 255,
        frame.has_screen() && !frame.screen(x, y) ==> shown_at(frame, fallback, x, y) == 0,
        !frame.has_screen() && fallback.holds(x, y) ==> shown_at(frame, fallback, x, y) == 255,
        !frame.has_screen() && !fallback.holds(x, y) ==> shown_at(frame, fallback, x, y) == 0,
        fallback.holds(x, y) <==> fallback.x <= x < fallback.x + fallback.width && fallback.y <= y
            < fallback.y + fallback.height,
{
}

/// Nothing of a screenshot is seen outside the screen of a frame.
pub proof fn law_nothing_is_seen_outside_the_screen(
    frame: Raster,
    fitted: Raster,
    rect: Rect,
    x: int,
    y: int,
)
    requires
        frame.has_screen(),
        !frame.screen(x, y),
        crate::media_render::compose::blended(
            seq![255u8, 255u8, 255u8, 0u8],
            fitted.pixel(
                x - offset_of(rect.x, rect.width, fitted.width) as u32,
                y - offset_of(rect.y, rect.height, fitted.height) as u32,
            ),
        ).len() == 4,
    ensures
        seen_at(frame, fitted, rect, x, y)[3] == 0,
{
    law_screens_show(frame, rect, x, y);
    let left = offset_of(rect.x, rect.width, fitted.width) as u32;
    let up = offset_of(rect.y, rect.height, fitted.height) as u32;
    let white = seq![255u8, 255u8, 255u8, 0u8];
    let below = crate::media_render::compose::blended(white, fitted.pixel(x - left, y - up));
    law_dimming(below, 0);
    law_dimming(white, 0);
}

/// Colours over white get lighter the clearer they are, and are rounded to the nearest shade.
pub proof fn law_white_shines_through(channel: u8, alpha: u8)
    ensures
        -127 <= 255 * over_white(channel, alpha) - (channel * alpha + 255 * (255 - alpha)) <= 127,
{
    let c = channel as int;
    let a = alpha as int;
    assert(0 <= c * a + 255 * (255 - a) <= 255 * 255) by (nonlinear_arith)
        requires
            0 <= c <= 255,
            0 <= a <= 255,
    ;
    let sum = c * a + 255 * (255 - a);
    assert(((sum + 127) / 255) as u8 == (sum + 127) / 255);
}

/// Screenshots for phones, tablets and watches are higher than wide, those for Macs, televisions and
/// headsets wider than high. The names without a size stand for the largest displays.
pub proof fn law_store_sizes(set: MediaScreenshotSet)
    ensures
        match store_size(set.config_key_of()) {
            Some(size) => match set {
                MediaScreenshotSet::Mac
                | MediaScreenshotSet::AppleTv
                | MediaScreenshotSet::VisionPro => size.width > size.height > 0,
                _ => size.height > size.width > 0,
            },
            None => false,
        },
        store_size("iphone"@) == store_size("iphone67"@),
        store_size("ipad"@) == store_size("ipad13"@),
        store_size("watch"@) == store_size("watch_series10"@),
{
    crate::config::names::lemma_screenshot_tail(set);
    reveal_strlit("iphone");
    reveal_strlit("iphone67");
    reveal_strlit("iphone65");
    reveal_strlit("iphone61");
    reveal_strlit("iphone58");
    reveal_strlit("iphone55");
    reveal_strlit("iphone47");
    reveal_strlit("iphone40");
    reveal_strlit("iphone35");
    reveal_strlit("ipad");
    reveal_strlit("ipad13");
    reveal_strlit("ipad129");
    reveal_strlit("ipad11");
    reveal_strlit("ipad105");
    reveal_strlit("ipad97");
    reveal_strlit("watch");
    reveal_strlit("watch_ultra");
    reveal_strlit("watch_series10");
    reveal_strlit("watch_series7");
    reveal_strlit("watch_series4");
    reveal_strlit("watch_series3");
    reveal_strlit("mac");
    reveal_strlit("apple_tv");
    reveal_strlit("vision_pro");
    assert("iphone"@.len() == 6
        && "iphone67"@.len() == 8
        && "iphone65"@.len() == 8
        && "iphone61"@.len() == 8
        && "iphone58"@.len() == 8
        && "iphone55"@.len() == 8
        && "iphone47"@.len() == 8
        && "iphone40"@.len() == 8
        && "iphone35"@.len() == 8
        && "ipad"@.len() == 4
        && "ipad13"@.len() == 6
        && "ipad129"@.len() == 7
        && "ipad11"@.len() == 6
        && "ipad105"@.len() == 7
        && "ipad97"@.len() == 6
        && "watch"@.len() == 5
        && "watch_ultra"@.len() == 11
        && "watch_series10"@.len() == 14
        && "watch_series7"@.len() == 13
        && "watch_series4"@.len() == 13
        && "watch_series3"@.len() == 13
        && "mac"@.len() == 3
        && "apple_tv"@.len() == 8
        && "vision_pro"@.len() == 10
        && "iphone"@[2] == 'h'
        && "ipad13"@[2] == 'a'
        && "ipad11"@[2] == 'a'
        && "ipad97"@[2] == 'a'
        && "iphone67"@[7] == '7'
        && "iphone65"@[7] == '5'
        && "iphone61"@[7] == '1'
        && "iphone67"@[6] == '6'
        && "iphone58"@[6] == '5'
        && "iphone55"@[6] == '5'
        && "iphone47"@[6] == '4'
        && "iphone40"@[6] == '4'
        && "iphone35"@[6] == '3'
        && "iphone67"@[0] == 'i'
        && "apple_tv"@[0] == 'a'
        && "iphone65"@[6] == '6'
        && "iphone65"@[0] == 'i'
        && "iphone61"@[6] == '6'
        && "iphone61"@[0] == 'i'
        && "iphone58"@[7] == '8'
        && "iphone55"@[7] == '5'
        && "iphone58"@[0] == 'i'
        && "iphone55"@[0] == 'i'
        && "iphone47"@[7] == '7'
        && "iphone40"@[7] == '0'
        && "iphone47"@[0] == 'i'
        && "iphone40"@[0] == 'i'
        && "iphone35"@[0] == 'i'
        && "ipad13"@[5] == '3'
        && "ipad11"@[5] == '1'
        && "ipad13"@[4] == '1'
        && "ipad97"@[4] == '9'
        && "ipad129"@[5] == '2'
        && "ipad105"@[5] == '0'
        && "ipad11"@[4] == '1'
        && "watch_series7"@[12] == '7'
        && "watch_series4"@[12] == '4'
        && "watch_series3"@[12] == '3');
}

/// A size is asked for by its name or by its numbers and not by both; where none is asked for, it is
/// that of the largest phone.
pub proof fn law_sizes_are_asked_for(size: Seq<char>, viewport: Seq<char>)
    ensures
        asked_size(Some(size), None) == named_size(size),
        asked_size(None, Some(viewport)) == written_size(viewport),
        asked_size(None, None) == named_size("iphone67"@),
        asked_size(Some(size), Some(viewport)) is Err,
        written_size(viewport) matches Ok(found) ==> found.width > 0 && found.height > 0,
{
}

/// An address of a file starts with its scheme, and an address of a directory ends with a slash.
pub proof fn law_file_addresses(path: Seq<char>)
    ensures
        starts(file_address(path), "file://"@),
        ends(file_address(path), percent_encoded(path)),
        starts(directory_address(path), file_address(path)),
        ends(directory_address(path), "/"@),
        directory_address(path).len() <= file_address(path).len() + 1,
{
    reveal_strlit("/");
    let file = file_address(path);
    assert(file.take("file://"@.len() as int) =~= "file://"@);
    assert(file.skip(file.len() - percent_encoded(path).len()) =~= percent_encoded(path));
    let directory = directory_address(path);
    assert(directory.take(file.len() as int) =~= file);
    if !ends(file, "/"@) {
        assert(directory.skip(directory.len() - 1) =~= "/"@);
    }
}

/// A value that is neither an object nor a list resolves to itself.
pub proof fn law_scalars_resolve_to_themselves(context: ResolveContext, value: Json)
    requires
        !(value is Object),
        !(value is Array),
    ensures
        resolved(context, value) == Ok::<JsonView, Seq<char>>(json_view(value)),
{
}

/// An object that only names a variable resolves to the text of the variable: the environment's or,
/// where it is not set there, that of the `.env` file. Where it is set in neither, it does not
/// resolve.
pub proof fn law_variables_resolve(
    context: ResolveContext,
    object: OrderedMap<Json>,
    key: String,
)
    requires
        object.entries().len() == 1,
        object.entries()[0] == ("$env"@, Json::Text(key)),
    ensures
        context.env@.contains_key(key@) ==> resolved(context, Json::Object(object)) == Ok::<
            JsonView,
            Seq<char>,
        >(JsonView::Text(context.env@[key@]@)),
        !context.env@.contains_key(key@) && context.dotenv@.contains_key(key@) ==> resolved(
            context,
            Json::Object(object),
        ) == Ok::<JsonView, Seq<char>>(JsonView::Text(context.dotenv@[key@]@)),
        !context.env@.contains_key(key@) && !context.dotenv@.contains_key(key@) ==> resolved(
            context,
            Json::Object(object),
        ) is Err,
{
    assert(env_key(object) == Some(key@));
}

proof fn lemma_items(context: ResolveContext, items: Vec<Json>, n: nat)
    requires
        n <= items@.len(),
    ensures
        resolved_items(context, items, n) is Ok <==> forall|i: int|
            0 <= i < n ==> resolved(context, #[trigger] items@[i]) is Ok,
        resolved_items(context, items, n) matches Ok(views) ==> views.len() == n && forall|i: int|
            0 <= i < n ==> resolved(context, #[trigger] items@[i]) == Ok::<JsonView, Seq<char>>(
                views[i],
            ),
    decreases n,
{
    if n > 0 {
        lemma_items(context, items, (n - 1) as nat);
    }
}

/// A list resolves item by item, and just where each of its items does.
pub proof fn law_lists_resolve_item_by_item(context: ResolveContext, items: Vec<Json>)
    ensures
        resolved(context, Json::Array(items)) is Ok <==> forall|i: int|
            0 <= i < items@.len() ==> resolved(context, #[trigger] items@[i]) is Ok,
        resolved(context, Json::Array(items)) matches Ok(view) ==> (view matches JsonView::Array(
            views,
        ) && views.len() == items@.len() && forall|i: int|
            0 <= i < views.len() ==> resolved(context, #[trigger] items@[i]) == Ok::<
                JsonView,
                Seq<char>,
            >(views[i])),
{
    lemma_items(context, items, items@.len());
}

/// The texts of a version stand each under its own name, and those that are not given do not stand
/// there.
pub proof fn law_version_texts_are_named(context: ResolveContext, spec: AppVersionLocalizationSpec)
    ensures
        ({
            let texts = version_texts(context, spec);
            &&& named_text(texts, "description"@, context.optional_text(spec.description))
            &&& named_text(texts, "marketing_url"@, context.optional_text(spec.marketing_url))
            &&& named_text(texts, "promotional_text"@, context.optional_text(spec.promotional_text))
            &&& named_text(texts, "support_url"@, context.optional_text(spec.support_url))
            &&& named_text(texts, "whats_new"@, context.optional_text(spec.whats_new))
            &&& named_text(texts, "keywords"@, context.keywords_text(spec.keywords))
        }),
{
    reveal_strlit("description");
    reveal_strlit("marketing_url");
    reveal_strlit("promotional_text");
    reveal_strlit("support_url");
    reveal_strlit("whats_new");
    reveal_strlit("keywords");
    assert("description"@.len() == 11
        && "marketing_url"@.len() == 13
        && "promotional_text"@.len() == 16
        && "support_url"@.len() == 11
        && "whats_new"@.len() == 9
        && "keywords"@.len() == 8
        && "description"@[0] == 'd'
        && "support_url"@[0] == 's');
}

/// A text stands under a name just where there is one.
pub open spec fn named_text(
    texts: Map<Seq<char>, JsonView>,
    name: Seq<char>,
    text: Option<Seq<char>>,
) -> bool {
    match text {
        Some(found) => texts.contains_key(name) && texts[name] == JsonView::Text(found),
        None => !texts.contains_key(name),
    }
}

/// Values that a localization gives for rendering stand over its texts: the last value of a name is
/// what stands there.
pub proof fn law_render_values_stand(
    strings: Map<Seq<char>, JsonView>,
    context: ResolveContext,
    values: OrderedMap<Json>,
    n: nat,
    view: JsonView,
)
    requires
        0 < n <= values.entries().len(),
        resolved(context, values.entries()[n - 1].1) == Ok::<JsonView, Seq<char>>(view),
    ensures
        ({
            let all = with_values(strings, context, values, n);
            let name = values.entries()[n - 1].0;
            &&& all.contains_key(name)
            &&& all[name] == view
            &&& forall|other: Seq<char>|
                other != name ==> (#[trigger] all.contains_key(other) <==> with_values(
                    strings,
                    context,
                    values,
                    (n - 1) as nat,
                ).contains_key(other))
        }),
{
}

/// The inputs pass just where there is one and each of them exists, is a file of the kind, has a path
/// of its own and, where it is a template, a stem.
pub proof fn law_inputs_pass(files: Seq<InputFile>, kind: InputKind)
    ensures
        inputs_message(files, kind) is None <==> {
            &&& files.len() > 0
            &&& forall|i: int| 0 <= i < files.len() ==> sound_input(#[trigger] files[i], kind)
            &&& forall|i: int, j: int|
                #![trigger files[i], files[j]]
                0 <= i < j < files.len() ==> canonical_of(files[i]) != canonical_of(files[j])
        },
{
    let f = input_checks(files, kind);
    lemma_first_message_none(f, 0, files.len() as int);
    if forall|i: int| 0 <= i < files.len() ==> (#[trigger] f(i)) is None {
        assert forall|i: int| 0 <= i < files.len() implies sound_input(#[trigger] files[i],
            kind) by {
            assert(f(i) is None);
        }
        assert forall|i: int, j: int|
            #![trigger files[i], files[j]]
            0 <= i < j < files.len() implies canonical_of(files[i]) != canonical_of(files[j]) by {
            assert(f(j) is None);
            assert(!crate::media_render::inputs::listed_before(files, j));
        }
    }
    if (forall|i: int| 0 <= i < files.len() ==> sound_input(#[trigger] files[i], kind)) && (forall|
        i: int,
        j: int,
    |
        #![trigger files[i], files[j]]
        0 <= i < j < files.len() ==> canonical_of(files[i]) != canonical_of(files[j])) {
        assert forall|i: int| 0 <= i < files.len() implies (#[trigger] f(i)) is None by {
            assert(sound_input(files[i], kind));
            if crate::media_render::inputs::listed_before(files, i) {
                let j = choose|j: int|
                    0 <= j < i && canonical_of(#[trigger] files[j]) == canonical_of(files[i]);
                assert(canonical_of(files[j]) != canonical_of(files[i]));
            }
        }
    }
}

/// An input that exists, is a file of a kind and has a path without links and dots.
pub open spec fn sound_input(file: InputFile, kind: InputKind) -> bool {
    &&& file.exists
    &&& file.is_file
    &&& match kind {
        InputKind::Template => small_extension(file.path@) == Some("html"@),
        InputKind::Screen => small_extension(file.path@) == Some("png"@) || small_extension(
            file.path@,
        ) == Some("jpg"@) || small_extension(file.path@) == Some("jpeg"@) || small_extension(
            file.path@,
        ) == Some("webp"@),
    }
    &&& file.canonical is Ok
    &&& kind is Template ==> crate::paths::stem_of(canonical_of(file)) is Some
}

/// Screens are given just where there is a frame.
pub proof fn law_screens_go_with_frames(given: bool, framed: bool)
    ensures
        screens_message(given, framed) is None <==> given == framed,
{
}

/// Each template goes with its own screen, or with the only one.
pub proof fn law_instances_have_their_screens(
    instance: TemplateInstance,
    templates: Seq<HtmlTemplate>,
    screens: Option<Vec<String>>,
    i: int,
)
    requires
        instance_of(instance, templates, screens, i),
    ensures
        instance.template.path@ == templates[i].path@,
        instance.template.id@ == templates[i].id@,
        screens is None <==> instance.screen is None,
        screens matches Some(images) ==> (images@.len() == 1 ==> owned(instance.screen) == Some(
            images@[0]@,
        )),
        screens matches Some(images) ==> (images@.len() != 1 ==> owned(instance.screen) == Some(
            images@[i]@,
        )),
{
}

/// Each side of a rectangle is read from the field of its name; one that cannot be read makes the
/// rectangle unreadable.
pub proof fn law_rectangles_are_read(bounds: Map<Seq<char>, Json>)
    ensures
        field_rectangle(bounds) is Ok <==> field_number(bounds, "x"@) is Ok && field_number(
            bounds,
            "y"@,
        ) is Ok && field_number(bounds, "width"@) is Ok && field_number(bounds, "height"@) is Ok,
        field_rectangle(bounds) matches Ok(rect) ==> {
            &&& field_number(bounds, "x"@) == Ok::<nat, Seq<char>>(rect.x as nat)
            &&& field_number(bounds, "y"@) == Ok::<nat, Seq<char>>(rect.y as nat)
            &&& field_number(bounds, "width"@) == Ok::<nat, Seq<char>>(rect.width as nat)
            &&& field_number(bounds, "height"@) == Ok::<nat, Seq<char>>(rect.height as nat)
        },
{
}

/// A number of the metadata is what is written in its field, as a number or as a text.
pub proof fn law_numbers_are_read(metadata: Map<Seq<char>, Json>,
    key: Seq<char>, n: u32, text: String)
    requires
        metadata.contains_key(key),
        text@ == decimal(n as nat),
        metadata[key] == Json::Number(text) || metadata[key] == Json::Text(text),
    ensures
        field_number(metadata, key) == Ok::<nat, Seq<char>>(n as nat),
{
    lemma_decimal_value(n as nat);
    assert(crate::text::is_digit(text@[0]));
    assert(text@[0] != '+');
}

/// A name looks into an object, a number into a list; what is not there is not found.
pub proof fn law_lookups_go_step_by_step(value: JsonView, step: Seq<char>, rest: Seq<Seq<char>>)
    requires
        step.len() > 0,
    ensures
        value is Object ==> looked_up(value, seq![step] + rest, 0) == (match member(value, step) {
            Some(inner) => looked_up(inner, rest, 0),
            None => None,
        }),
        value matches JsonView::Array(items) ==> (parsed_number(step, items.len()) matches Some(n)
            ==> (n < items.len() ==> looked_up(value, seq![step] + rest, 0) == looked_up(
            items[n as int],
            rest,
            0,
        ))),
        !(value is Object) && !(value is Array) ==> looked_up(value, seq![step] + rest, 0) is None,
        looked_up(value, seq![], 0) == Some(value),
{
    let steps = seq![step] + rest;
    assert(steps[0] == step);
    if let Some(inner) = member(value, step) {
        lemma_looked_up_behind(inner, rest, step, 0);
    }
    if let JsonView::Array(items) = value {
        if let Some(n) = parsed_number(step, items.len()) {
            if n < items.len() {
                lemma_looked_up_behind(items[n as int], rest, step, 0);
            }
        }
    }
}

proof fn lemma_looked_up_behind(value: JsonView, rest: Seq<Seq<char>>, step: Seq<char>, i: int)
    requires
        0 <= i,
    ensures
        looked_up(value, seq![step] + rest, i + 1) == looked_up(value, rest, i),
    decreases rest.len() - i,
{
    let steps = seq![step] + rest;
    if i < rest.len() {
        assert(steps[i + 1] == rest[i]);
        if let Some(inner) = member(value, rest[i]) {
            lemma_looked_up_behind(inner, rest, step, i + 1);
        }
        if let JsonView::Array(items) = value {
            if let Some(n) = parsed_number(rest[i], items.len()) {
                if n < items.len() {
                    lemma_looked_up_behind(items[n as int], rest, step, i + 1);
                }
            }
        }
    }
}

/// The names of the template and of the locale stand for themselves, whatever the strings say.
pub proof fn law_own_variables(data: DataView, template_id: Seq<char>)
    ensures
        variable_text(data, template_id, "id"@) == Ok::<Seq<char>, Seq<char>>(template_id),
        variable_text(data, template_id, "asc_id"@) == Ok::<Seq<char>, Seq<char>>(template_id),
        data.locale matches Some(locale) ==> variable_text(data, template_id, "locale"@) == Ok::<
            Seq<char>,
            Seq<char>,
        >(locale),
        data.locale is None ==> variable_text(data, template_id, "locale"@) == Ok::<
            Seq<char>,
            Seq<char>,
        >(seq![]),
{
    reveal_strlit("id");
    reveal_strlit("asc_id");
    reveal_strlit("locale");
    assert("id"@.len() == 2 && "asc_id"@.len() == 6 && "locale"@.len() == 6);
    assert("asc_id"@[0] == 'a' && "locale"@[0] == 'l');
}

/// Texts and numbers are written as they are, truth values by their words and nothing as nothing;
/// objects and lists cannot be written.
pub proof fn law_scalars_are_written(key: Seq<char>, text: Seq<char>, value: JsonView)
    ensures
        scalar_text(JsonView::Text(text), key) == Ok::<Seq<char>, Seq<char>>(text),
        scalar_text(JsonView::Number(text), key) == Ok::<Seq<char>, Seq<char>>(text),
        scalar_text(JsonView::Bool(true), key) == Ok::<Seq<char>, Seq<char>>("true"@),
        scalar_text(JsonView::Bool(false), key) == Ok::<Seq<char>, Seq<char>>("false"@),
        scalar_text(JsonView::Null, key) == Ok::<Seq<char>, Seq<char>>(seq![]),
        scalar_text(value, key) is Err <==> value is Object || value is Array,
{
}

/// A variable in a page is replaced by its text, with markup escaped, and the page around it stays.
pub proof fn law_variables_are_filled_in(
    head: Seq<char>,
    inner: Seq<char>,
    tail: Seq<char>,
    data: DataView,
    template_id: Seq<char>,
    value: Seq<char>,
)
    requires
        !head.contains('{'),
        !inner.contains('}'),
        !tail.contains('{'),
        trimmed(inner).len() > 0,
        variable_text(data, template_id, trimmed(inner)) == Ok::<Seq<char>, Seq<char>>(value),
    ensures
        filled(head + seq!['{', '{'] + inner + seq!['}', '}'] + tail, data, template_id) == Ok::<
            Seq<char>,
            Seq<char>,
        >(head + crate::markup::html_escaped(value) + tail),
{
    let html = head + seq!['{', '{'] + inner + seq!['}', '}'] + tail;
    let open = seq!['{', '{'];
    let close = seq!['}', '}'];
    let a = head.len() as int;
    let b = a + 2 + inner.len();
    assert(html.subrange(a, a + 2) =~= open);
    assert(occurs_at(html, open, a));
    lemma_first_place(html, open, 0);
    let start = first_place(html, open, 0)->0;
    if start < a {
        assert(html.subrange(start, start + 2)[0] == '{');
        assert(head[start] == '{');
    }
    assert(start == a);
    assert(html.subrange(b, b + 2) =~= close);
    assert(occurs_at(html, close, b));
    lemma_first_place(html, close, a + 2);
    let end = first_place(html, close, a + 2)->0;
    if end < b {
        assert(html.subrange(end, end + 2)[0] == '}');
        assert(inner[end - a - 2] == '}');
    }
    assert(end == b);
    assert(html.subrange(a + 2, b) =~= inner);
    assert(html.subrange(0, a) =~= head);
    lemma_first_place(html, open, b + 2);
    if let Some(more) = first_place(html, open, b + 2) {
        assert(html.subrange(more, more + 2)[0] == '{');
        assert(tail[more - b - 2] == '{');
    }
    assert(html.skip(b + 2) =~= tail);
    assert(filled_from(html, data, template_id, b + 2) == Ok::<Seq<char>, Seq<char>>(tail));
}

/// A page is told its id, its locale, its size and its strings each under its own name.
pub proof fn law_payloads_are_named(context: RenderContext, data: DataView, template_id: Seq<char>)
    ensures
        ({
            let payload = payload_view(context, data, template_id);
            &&& member(payload, "id"@) == Some(JsonView::Text(template_id))
            &&& member(payload, "strings"@) == Some(data.strings)
            &&& data.locale matches Some(locale) ==> member(payload, "locale"@) == Some(
                JsonView::Text(locale),
            )
            &&& member(payload, "viewport"@) matches Some(size) && tells_size(
                size,
                context.viewport,
            )
            &&& context.frame is None ==> member(payload, "frame"@) == Some(JsonView::Null)
            &&& context.frame matches Some(spec) ==> (member(payload, "frame"@) matches Some(frame)
                && member(frame, "name"@) == Some(JsonView::Text(spec.name@)) && (member(
                frame,
                "image"@,
            ) matches Some(image) && tells_size(image, spec.image_size)) && (member(
                frame,
                "screen"@,
            ) matches Some(screen) && tells_size(
                screen,
                Viewport { width: spec.screen.width, height: spec.screen.height },
            ) && member(screen, "x"@) == Some(JsonView::Number(decimal(spec.screen.x as nat)))
                && member(screen, "y"@) == Some(JsonView::Number(decimal(spec.screen.y as nat)))))
        }),
{
    reveal_strlit("id");
    reveal_strlit("locale");
    reveal_strlit("viewport");
    reveal_strlit("frame");
    reveal_strlit("strings");
    reveal_strlit("name");
    reveal_strlit("image");
    reveal_strlit("screen");
    reveal_strlit("x");
    reveal_strlit("y");
    reveal_strlit("width");
    reveal_strlit("height");
    assert("id"@.len() == 2
        && "locale"@.len() == 6
        && "viewport"@.len() == 8
        && "frame"@.len() == 5
        && "strings"@.len() == 7
        && "name"@.len() == 4
        && "image"@.len() == 5
        && "screen"@.len() == 6
        && "x"@.len() == 1
        && "y"@.len() == 1
        && "width"@.len() == 5
        && "height"@.len() == 6
        && "locale"@[0] == 'l'
        && "screen"@[0] == 's'
        && "height"@[0] == 'h'
        && "frame"@[0] == 'f'
        && "image"@[0] == 'i'
        && "width"@[0] == 'w'
        && "x"@[0] == 'x'
        && "y"@[0] == 'y');
}

/// A width and a height, each under its name.
pub open spec fn tells_size(value: JsonView, size: Viewport) -> bool {
    member(value, "width"@) == Some(JsonView::Number(decimal(size.width as nat))) && member(
        value,
        "height"@,
    ) == Some(JsonView::Number(decimal(size.height as nat)))
}

/// A frame fits as its tag says: by `fit`, else by `data-screen-fit`, and covers where it says
/// nothing.
pub proof fn law_fits_are_asked_for(opening: Seq<char>, fit: FrameFit)
    ensures
        attribute(opening, "fit"@) == Some(fit.name_of()) ==> fit_of(opening) == Ok::<
            FrameFit,
            Seq<char>,
        >(fit),
        attribute(opening, "fit"@) is None && attribute(opening, "data-screen-fit"@) == Some(
            fit.name_of(),
        ) ==> fit_of(opening) == Ok::<FrameFit, Seq<char>>(fit),
        attribute(opening, "fit"@) is None && attribute(opening, "data-screen-fit"@) is None
            ==> fit_of(opening) == Ok::<FrameFit, Seq<char>>(FrameFit::Cover),
{
    crate::media_render::frame::law_fits_by_name(fit);
    crate::media_render::frame::law_fits_by_name(FrameFit::Cover);
}

/// The number of a template leads to it.
pub proof fn law_numbers_route(
    instances: Seq<TemplateInstance>,
    has_frame: bool,
    index: nat,
)
    requires
        index <= usize::MAX,
    ensures
        ({
            let path = "/template/"@ + decimal(index);
            let screen = "/screen/"@ + decimal(index);
            &&& index < instances.len() ==> routed(path, instances, has_frame) == Ok::<
                RouteView,
                Seq<char>,
            >(RouteView::Template(index))
            &&& index >= instances.len() ==> routed(path, instances, has_frame) is Err
            &&& index < instances.len() && instances[index as int].screen is Some ==> routed(
                screen,
                instances,
                has_frame,
            ) == Ok::<RouteView, Seq<char>>(RouteView::Screen(index))
            &&& index < instances.len() && instances[index as int].screen is None ==> routed(
                screen,
                instances,
                has_frame,
            ) is Err
        }),
        routed("/"@, instances, has_frame) == Ok::<RouteView, Seq<char>>(RouteView::Dashboard),
{
    lemma_index(index);
    lemma_route_names();
    let number = decimal(index);
    let path = "/template/"@ + number;
    let screen = "/screen/"@ + number;
    assert(path.take(10) =~= "/template/"@);
    assert(path.skip(10) =~= number);
    assert(screen.take(8) =~= "/screen/"@);
    assert(screen.skip(8) =~= number);
    assert(screen[1] == 's');
    if starts(screen, "/template/"@) {
        assert(screen.take(10)[1] == 't');
    }
    if starts(screen, "/framed/"@) {
        assert(screen.take(8)[1] == 'f');
    }
}

proof fn lemma_index(index: nat)
    requires
        index <= usize::MAX,
    ensures
        index_of_text(decimal(index)) == Ok::<nat, Seq<char>>(index),
        decimal(index).len() > 0,
        forall|i: int|
            0 <= i < decimal(index).len() ==> crate::text::is_digit(#[trigger] decimal(index)[i]),
{
    lemma_decimal_value(index);
    assert(crate::text::is_digit(decimal(index)[0]));
    assert(decimal(index)[0] != '+');
}

proof fn lemma_route_names()
    ensures
        "/"@.len() == 1,
        "/template/"@.len() == 10 && "/template/"@[1] == 't',
        "/framed/"@.len() == 8 && "/framed/"@[1] == 'f',
        "/screen/"@.len() == 8 && "/screen/"@[1] == 's',
        "/assets/"@.len() == 8 && "/assets/"@[1] == 'a',
{
    reveal_strlit("/");
    reveal_strlit("/template/");
    reveal_strlit("/framed/");
    reveal_strlit("/screen/");
    reveal_strlit("/assets/");
}

/// The number of a template and a fit lead to its framed screen, where there is a frame and a screen;
/// the number and a path lead to the file at that path.
pub proof fn law_framed_screens_and_files_route(
    instances: Seq<TemplateInstance>,
    index: nat,
    fit: FrameFit,
    rest: Seq<char>,
)
    requires
        index < instances.len(),
        index <= usize::MAX,
    ensures
        ({
            let framed = "/framed/"@ + (decimal(index) + seq!['/'] + fit.name_of());
            let file = "/assets/"@ + (decimal(index) + seq!['/'] + rest);
            &&& instances[index as int].screen is Some ==> routed(framed, instances, true) == Ok::<
                RouteView,
                Seq<char>,
            >(RouteView::Framed(index, fit))
            &&& routed(framed, instances, false) is Err
            &&& routed(file, instances, true) == Ok::<RouteView, Seq<char>>(
                RouteView::Asset(index, rest),
            )
        }),
{
    lemma_index(index);
    lemma_route_names();
    crate::media_render::frame::law_fits_by_name(fit);
    let number = decimal(index);
    lemma_behind_slash(number, fit.name_of());
    lemma_behind_slash(number, rest);
    let inner = number + seq!['/'] + fit.name_of();
    let framed = "/framed/"@ + inner;
    let other = number + seq!['/'] + rest;
    let file = "/assets/"@ + other;
    assert(framed.take(8) =~= "/framed/"@);
    assert(framed.skip(8) =~= inner);
    assert(file.take(8) =~= "/assets/"@);
    assert(file.skip(8) =~= other);
    if starts(framed, "/template/"@) {
        assert(framed.take(10)[1] == 't');
    }
    if starts(file, "/template/"@) {
        assert(file.take(10)[1] == 't');
    }
    if starts(file, "/framed/"@) {
        assert(file.take(8)[1] == 'f');
    }
    if starts(file, "/screen/"@) {
        assert(file.take(8)[1] == 's');
    }
}

proof fn lemma_behind_slash(number: Seq<char>, rest: Seq<char>)
    requires
        forall|i: int| 0 <= i < number.len() ==> crate::text::is_digit(#[trigger] number[i]),
    ensures
        ({
            let whole = number + seq!['/'] + rest;
            &&& first_place(whole, seq!['/'], 0) == Some(number.len() as int)
            &&& whole.subrange(0, number.len() as int) == number
            &&& whole.subrange(number.len() as int + 1, whole.len() as int) == rest
        }),
{
    let whole = number + seq!['/'] + rest;
    let n = number.len() as int;
    assert(whole.subrange(n, n + 1) =~= seq!['/']);
    assert(occurs_at(whole, seq!['/'], n));
    lemma_first_place(whole, seq!['/'], 0);
    let i = first_place(whole, seq!['/'], 0)->0;
    if i < n {
        assert(whole.subrange(i, i + 1)[0] == '/');
        assert(crate::text::is_digit(number[i]));
    }
    assert(whole.subrange(0, n) =~= number);
    assert(whole.subrange(n + 1, whole.len() as int) =~= rest);
}

/// A path of a template's files never leads out of its directory by two dots.
pub proof fn law_no_path_escapes(root: Seq<char>, steps: Seq<Seq<char>>, from: int)
    requires
        from >= 0,
    ensures
        walked(root, steps, from) is Ok ==> forall|i: int|
            from <= i < steps.len() ==> #[trigger] steps[i] != ".."@,
    decreases steps.len() - from,
{
    reveal_strlit(".");
    reveal_strlit("..");
    assert("."@.len() == 1 && ".."@.len() == 2);
    if from < steps.len() {
        law_no_path_escapes(root, steps, from + 1);
        if let Ok(name) = crate::media_render::percent::percent_decoded(steps[from]) {
            law_no_path_escapes(under(root, name), steps, from + 1);
        }
    }
}

/// A path lies in a directory just where it is the directory, or goes on below it.
pub proof fn law_paths_below(root: Seq<char>, rest: Seq<char>)
    ensures
        lies_in(root, root),
        lies_in(root, root + "/"@ + rest),
        root != "/"@ && rest.len() > 0 && rest[0] != '/' ==> !lies_in(root, root + rest),
{
    reveal_strlit("/");
    let below = root + "/"@ + rest;
    assert(below.take((root + "/"@).len() as int) =~= root + "/"@);
    let beside = root + rest;
    if starts(beside, root + "/"@) {
        assert(beside.take((root + "/"@).len() as int)[root.len() as int] == '/');
        assert(beside[root.len() as int] == rest[0]);
    }
    if rest.len() > 0 {
        assert(beside.len() != root.len());
    }
}

/// Images, styles, scripts and fonts are told by their extensions, in any case; anything else is
/// bytes.
pub proof fn law_media_types(path: Seq<char>)
    ensures
        small_extension(path) == Some("css"@) ==> media_type(path) == "text/css; charset=utf-8"@,
        small_extension(path) == Some("js"@) ==> media_type(path)
            == "application/javascript; charset=utf-8"@,
        small_extension(path) == Some("png"@) ==> media_type(path) == "image/png"@,
        small_extension(path) == Some("jpg"@) ==> media_type(path) == "image/jpeg"@,
        small_extension(path) == Some("jpeg"@) ==> media_type(path) == "image/jpeg"@,
        small_extension(path) == Some("svg"@) ==> media_type(path) == "image/svg+xml"@,
        small_extension(path) == Some("webp"@) ==> media_type(path) == "image/webp"@,
        small_extension(path) == Some("woff"@) ==> media_type(path) == "font/woff"@,
        small_extension(path) == Some("woff2"@) ==> media_type(path) == "font/woff2"@,
        small_extension(path) is None ==> media_type(path) == "application/octet-stream"@,
        starts(media_type(path), "image/"@) ==> (small_extension(path) matches Some(extension)
            && (extension == "png"@ || extension == "jpg"@ || extension == "jpeg"@ || extension
                == "svg"@ || extension == "webp"@)),
{
    reveal_strlit("css");
    reveal_strlit("js");
    reveal_strlit("png");
    reveal_strlit("jpg");
    reveal_strlit("jpeg");
    reveal_strlit("svg");
    reveal_strlit("webp");
    reveal_strlit("woff");
    reveal_strlit("woff2");
    assert("css"@.len() == 3
        && "js"@.len() == 2
        && "png"@.len() == 3
        && "jpg"@.len() == 3
        && "jpeg"@.len() == 4
        && "svg"@.len() == 3
        && "webp"@.len() == 4
        && "woff"@.len() == 4
        && "woff2"@.len() == 5
        && "css"@[0] == 'c'
        && "png"@[0] == 'p'
        && "jpg"@[0] == 'j'
        && "svg"@[0] == 's'
        && "jpeg"@[0] == 'j'
        && "webp"@[0] == 'w'
        && "woff"@[0] == 'w'
        && "webp"@[1] == 'e'
        && "woff"@[1] == 'o');
    reveal_strlit("application/javascript; charset=utf-8");
    reveal_strlit("font/woff");
    reveal_strlit("font/woff2");
    reveal_strlit("image/jpeg");
    reveal_strlit("image/png");
    reveal_strlit("image/svg+xml");
    reveal_strlit("image/webp");
    reveal_strlit("text/css; charset=utf-8");
    reveal_strlit("application/octet-stream");
    reveal_strlit("image/");
    if starts(media_type(path), "image/"@) {
        assert(media_type(path).take(6)[0] == 'i');
    }
    assert("application/javascript; charset=utf-8"@[0] == 'a');
    assert("font/woff"@[0] == 'f');
    assert("font/woff2"@[0] == 'f');
    assert("image/jpeg"@[0] == 'i');
    assert("image/png"@[0] == 'i');
    assert("image/svg+xml"@[0] == 'i');
    assert("image/webp"@[0] == 'i');
    assert("text/css; charset=utf-8"@[0] == 't');
    assert("application/octet-stream"@[0] == 'a');
}

/// A status of failure has words of its own.
pub proof fn law_status_words(status: u16)
    ensures
        status == 404 <==> status_words(status) == "Not Found"@,
        status == 500 <==> status_words(status) == "Internal Server Error"@,
        status < 400 ==> status_words(status) == "OK"@,
{
    reveal_strlit("OK");
    reveal_strlit("Not Found");
    reveal_strlit("Internal Server Error");
    assert("OK"@.len() == 2 && "Not Found"@.len() == 9 && "Internal Server Error"@.len() == 21);
}

/// A list with a further item has it, keeps what it had in its order, and has nothing twice where it
/// had nothing twice.
pub proof fn law_unique_items(list: Seq<Seq<char>>, item: Seq<char>)
    ensures
        with_unique(list, item).contains(item),
        with_unique(list, item).take(list.len() as int) == list,
        with_unique(list, item).len() <= list.len() + 1,
        list.no_duplicates() ==> with_unique(list, item).no_duplicates(),
        list.contains(item) ==> with_unique(list, item) == list,
{
    let after = with_unique(list, item);
    assert(after.take(list.len() as int) =~= list);
    if !list.contains(item) {
        assert(after[list.len() as int] == item);
    }
}

/// The address that is found is that of the first page, and where none is found no target is a page
/// with an address.
pub proof fn law_first_page_is_found(targets: Seq<JsonView>, from: int)
    requires
        from >= 0,
    ensures
        match first_page(targets, from) {
            Some(address) => exists|i: int|
                from <= i < targets.len() && is_page(#[trigger] targets[i], address),
            None => forall|i: int, address: Seq<char>|
                from <= i < targets.len() ==> !#[trigger] is_page(targets[i], address),
        },
    decreases targets.len() - from,
{
    if from < targets.len() {
        if let Some(address) = page_address(targets[from]) {
            assert(is_page(targets[from], address));
        } else {
            law_first_page_is_found(targets, from + 1);
            if let Some(address) = first_page(targets, from + 1) {
                let i = choose|i: int|
                    from + 1 <= i < targets.len() && is_page(#[trigger] targets[i], address);
                assert(is_page(targets[i], address));
            }
        }
    }
}

/// A target of the browser is a page that is debugged at an address.
pub open spec fn is_page(target: JsonView, address: Seq<char>) -> bool {
    member(target, "type"@) == Some(JsonView::Text("page"@)) && member(
        target,
        "webSocketDebuggerUrl"@,
    ) == Some(JsonView::Text(address))
}

/// The browser is told its port, its directory and its size.
pub proof fn law_browser_options(port: u16, user_data_dir: Seq<char>, viewport: Viewport)
    ensures
        ({
            let options = browser_options(port, user_data_dir, viewport);
            &&& options.contains("--headless=new"@)
            &&& options.contains("--remote-debugging-address=127.0.0.1"@)
            &&& options.contains("--remote-debugging-port="@ + decimal(port as nat))
            &&& options.contains("--user-data-dir="@ + user_data_dir)
            &&& options.contains(
                "--window-size="@ + decimal(viewport.width as nat) + ","@ + decimal(
                    viewport.height as nat,
                ),
            )
            &&& options.contains("--force-device-scale-factor=1"@)
            &&& options.last() == "about:blank"@
        }),
{
    let options = browser_options(port, user_data_dir, viewport);
    assert(options[0] == "--headless=new"@);
    assert(options[13] == "--remote-debugging-address=127.0.0.1"@);
    assert(options[14] == "--remote-debugging-port="@ + decimal(port as nat));
    assert(options[15] == "--force-device-scale-factor=1"@);
    assert(options[16] == "--user-data-dir="@ + user_data_dir);
    assert(options[17] == "--window-size="@ + decimal(viewport.width as nat) + ","@ + decimal(
        viewport.height as nat,
    ));
}

/// The file that is found has one of two paths and none before it has; where none is found, none has.
pub proof fn law_assets_are_found_by_path(
    files: Seq<FrameAssetManifestFile>,
    path: Seq<char>,
    other: Seq<char>,
    from: int,
)
    requires
        from >= 0,
    ensures
        match asset_at(files, path, other, from) {
            Some(found) => exists|i: int|
                from <= i < files.len() && (#[trigger] files[i])@ == found && (found.path == path
                    || found.path == other),
            None => forall|i: int|
                from <= i < files.len() ==> (#[trigger] files[i])@.path != path && files[i]@.path
                    != other,
        },
    decreases files.len() - from,
{
    if from < files.len() {
        if files[from].path@ == path || files[from].path@ == other {
            assert(files[from]@.path == files[from].path@);
        } else {
            law_assets_are_found_by_path(files, path, other, from + 1);
            if let Some(found) = asset_at(files, path, other, from + 1) {
                let i = choose|i: int|
                    from + 1 <= i < files.len() && (#[trigger] files[i])@ == found && (found.path
                        == path || found.path == other);
                assert(files[i]@ == found);
            }
        }
    }
}

/// A frame needs its image, which comes last, and the lists of frames and sizes where there are any;
/// a frame without an image is not found.
pub proof fn law_frames_need_their_images(files: Seq<FrameAssetManifestFile>, frame_name: Seq<char>)
    ensures
        needed_assets(files, frame_name) is Ok <==> exists|i: int|
            0 <= i < files.len() && ((#[trigger] files[i])@.path == frame_name + ".png"@
                || files[i]@.path == frame_name + ".PNG"@),
        needed_assets(files, frame_name) matches Ok(assets) ==> {
            &&& assets.len() >= 1
            &&& assets.last().path == frame_name + ".png"@ || assets.last().path == frame_name
                + ".PNG"@
            &&& forall|i: int|
                0 <= i < assets.len() - 1 ==> (#[trigger] assets[i]).path == "Frames.json"@
                    || assets[i].path == "Sizes.json"@
            &&& (exists|i: int|
                0 <= i < files.len() && (#[trigger] files[i])@.path == "Frames.json"@) && (exists|
                i: int,
            | 0 <= i < files.len() && (#[trigger] files[i])@.path == "Sizes.json"@)
                ==> assets.len() == 3
        },
{
    law_assets_are_found_by_path(files, frame_name + ".png"@, frame_name + ".PNG"@, 0);
    law_assets_are_found_by_path(files, "Frames.json"@, "Frames.json"@, 0);
    law_assets_are_found_by_path(files, "Sizes.json"@, "Sizes.json"@, 0);
}

/// A path of the cache passes just where it is not empty, not absolute, has no backslash, and none of
/// its steps is empty or leads elsewhere.
pub proof fn law_cache_paths_pass(path: Seq<char>)
    ensures
        cache_path_message(path) is None <==> {
            &&& path.len() > 0
            &&& path[0] != '/'
            &&& !path.contains('\\')
            &&& forall|i: int|
                0 <= i < pieces(path, '/').len() ==> (#[trigger] pieces(path, '/')[i]).len() > 0
                    && pieces(path, '/')[i] != "."@ && pieces(path, '/')[i] != ".."@
        },
{
    reveal_strlit("/");
    reveal_strlit("\\");
    if path.len() > 0 {
        if path[0] == '/' {
            assert(path.take(1) =~= "/"@);
        }
        if starts(path, "/"@) {
            assert(path.take(1)[0] == '/');
        }
    }
    if path.contains('\\') {
        let i = choose|i: int| 0 <= i < path.len() && path[i] == '\\';
        assert(path.subrange(i, i + 1) =~= "\\"@);
        assert(occurs_at(path, "\\"@, i));
    }
    if occurs(path, "\\"@) {
        let i = choose|i: int| occurs_at(path, "\\"@, i);
        assert(path.subrange(i, i + 1)[0] == '\\');
        assert(path[i] == '\\');
    }
}

/// What was fetched passes just where it has the size and the checksum that are listed.
pub proof fn law_fetched_assets_pass(bytes: Seq<u8>, asset: AssetView)
    ensures
        fetched_message(bytes, asset) is None <==> bytes.len() == asset.size && hex(md5_of(bytes))
            == asset.md5,
        is_asset(bytes, asset) <==> fetched_message(bytes, asset) is None,
{
}

/// Frames are looked for where one was told to, then where the environment says, then in the usual
/// places.
pub proof fn law_frame_directories(
    explicit: Option<Seq<char>>,
    variable: Option<Seq<char>>,
    home: Seq<char>,
)
    ensures
        ({
            let dirs = frame_dirs(explicit, variable, home);
            &&& explicit matches Some(path) ==> dirs[0] == path
            &&& explicit is None ==> (variable matches Some(path) ==> dirs[0] == path)
            &&& explicit is Some ==> (variable matches Some(path) ==> dirs[1] == path)
            &&& dirs.contains(under(home, "assets/device-frames"@))
            &&& dirs.len() >= 5
        }),
{
    let dirs = frame_dirs(explicit, variable, home);
    assert(dirs[dirs.len() - 5] == under(home, "assets/device-frames"@));
}

/// A request for a path is routed by the path, without what is asked of it.
pub proof fn law_requests_are_read(
    method: Seq<char>,
    path: Seq<char>,
    query: Seq<char>,
    rest: Seq<char>,
)
    requires
        method == "GET"@ || method == "HEAD"@,
        path.len() > 0,
        !path.contains('?'),
        plain_word(path + query),
        query.len() > 0 ==> query[0] == '?',
        !rest.contains('\n'),
    ensures
        requested(method + seq![' '] + (path + query) + seq![' '] + rest) == Ok::<
            Seq<char>,
            Seq<char>,
        >(path),
{
    reveal_strlit("GET");
    reveal_strlit("HEAD");
    let target = path + query;
    let request = method + seq![' '] + target + seq![' '] + rest;
    lemma_first_place(request, seq!['\n'], 0);
    if let Some(i) = first_place(request, seq!['\n'], 0) {
        assert(request.subrange(i, i + 1)[0] == '\n');
        assert(request[i] == '\n');
        if i > method.len() && i < method.len() + 1 + target.len() {
            assert(target[i - method.len() - 1] == '\n');
            assert(crate::text::is_white_space('\n'));
        } else if i > method.len() + 1 + target.len() {
            assert(rest[i - method.len() - target.len() - 2] == '\n');
        }
    }
    assert(before(request, '\n') == request);
    assert(request =~= method + seq![' '] + (target + seq![' '] + rest));
    lemma_word(method, target + seq![' '] + rest);
    let behind = crate::media_render::preview::behind_word(request);
    assert(behind =~= seq![' '] + (target + seq![' '] + rest));
    lemma_word(target, rest);
    assert(crate::text::is_white_space(behind[0]));
    assert(behind.drop_first() =~= target + seq![' '] + rest);
    assert(crate::text::trimmed_start(behind) == target + seq![' '] + rest);
    assert(crate::media_render::preview::first_word(behind) == target);
    lemma_first_place(target, seq!['?'], 0);
    if query.len() > 0 {
        assert(target.subrange(path.len() as int, path.len() as int + 1) =~= seq!['?']);
        assert(occurs_at(target, seq!['?'], path.len() as int));
    }
    if let Some(i) = first_place(target, seq!['?'], 0) {
        assert(target.subrange(i, i + 1)[0] == '?');
        if i < path.len() {
            assert(path[i] == '?');
        }
        if query.len() > 0 {
            assert(i == path.len());
        }
    }
    assert(before(target, '?') =~= path);
}

/// A text without space.
pub open spec fn plain_word(word: Seq<char>) -> bool {
    forall|i: int| 0 <= i < word.len() ==> !crate::text::is_white_space(#[trigger] word[i])
}

proof fn lemma_word(word: Seq<char>, rest: Seq<char>)
    requires
        word.len() > 0,
        plain_word(word) || word == "GET"@ || word == "HEAD"@,
    ensures
        crate::media_render::preview::first_word(word + seq![' '] + rest) == word,
        crate::text::trimmed_start(word + seq![' '] + rest) == word + seq![' '] + rest,
{
    reveal_strlit("GET");
    reveal_strlit("HEAD");
    let s = word + seq![' '] + rest;
    assert(!crate::text::is_white_space(s[0])) by {
        assert(s[0] == word[0]);
    }
    lemma_leading(word, rest);
}

proof fn lemma_leading(word: Seq<char>, rest: Seq<char>)
    requires
        plain_word(word) || word == "GET"@ || word == "HEAD"@,
    ensures
        crate::media_render::preview::leading_word(word + seq![' '] + rest) == word,
    decreases word.len(),
{
    reveal_strlit("GET");
    reveal_strlit("HEAD");
    assert(plain_word(word)) by {
        assert forall|i: int| 0 <= i < word.len() implies !crate::text::is_white_space(
            #[trigger] word[i],
        ) by {
            if word == "GET"@ {
                assert(i == 0 || i == 1 || i == 2);
            } else if word == "HEAD"@ {
                assert(i == 0 || i == 1 || i == 2 || i == 3);
            }
        }
    }
    let s = word + seq![' '] + rest;
    if word.len() > 0 {
        assert(s[0] == word[0]);
        let inner = word.drop_first();
        assert(plain_word(inner)) by {
            assert forall|i: int| 0 <= i < inner.len() implies !crate::text::is_white_space(
                #[trigger] inner[i],
            ) by {
                assert(!crate::text::is_white_space(word[i + 1]));
            }
        }
        lemma_leading(inner, rest);
        assert(s.drop_first() =~= inner + seq![' '] + rest);
        assert(seq![word[0]] + inner =~= word);
    } else {
        assert(s[0] == ' ');
        assert(crate::media_render::preview::leading_word(s) =~= word);
    }
}

proof fn lemma_metadata(value: Json, name: Seq<char>)
    ensures
        metadata_of(value, name) matches Some(found) ==> named(found, name),
    decreases value, 0nat,
{
    if let Json::Object(object) = value {
        if !named(object, name) {
            lemma_metadata_below(object, name, object.entries().len());
        }
    }
}

proof fn lemma_metadata_below(object: OrderedMap<Json>, name: Seq<char>, n: nat)
    ensures
        crate::media_render::metadata::metadata_below(object, name, n) matches Some(found)
            ==> named(
            found,
            name,
        ),
    decreases object, n,
{
    let all = object.entries().len();
    if 0 < n <= all {
        object.lemma_entry_decreases(all - n);
        lemma_metadata(object.entries()[all - n].1, name);
        lemma_metadata_below(object, name, (n - 1) as nat);
    }
}

/// The metadata that are found for a frame have its name; metadata that have it are found.
pub proof fn law_metadata_have_the_name(value: Json, name: Seq<char>)
    ensures
        metadata_of(value, name) matches Some(found) ==> (found@.contains_key("name"@) && (
        found@["name"@] matches Json::Text(text) && text@ == name)),
        value matches Json::Object(object) ==> (object@.contains_key("name"@) && (
        object@["name"@] matches Json::Text(text) && text@ == name) ==> metadata_of(value, name)
            == Some(object)),
{
    lemma_metadata(value, name);
}

/// The bounds of a screen are those that the metadata give, or what is left between two margins.
pub proof fn law_bounds_are_known(metadata: Map<Seq<char>, Json>, image_size: Viewport)
    ensures
        metadata.contains_key("screen_bounds"@)
            ==> (metadata["screen_bounds"@] matches Json::Object(
            bounds,
        ) ==> known_bounds(metadata, image_size) == field_rectangle(bounds@)),
        !metadata.contains_key("screen_bounds"@) ==> (known_bounds(metadata, image_size) matches Ok(
            rect,
        ) ==> {
            &&& field_number(metadata, "x"@) == Ok::<nat, Seq<char>>(rect.x as nat)
            &&& field_number(metadata, "y"@) == Ok::<nat, Seq<char>>(rect.y as nat)
            &&& rect.x + rect.width + rect.x == image_size.width
            &&& rect.y + rect.height + rect.y == image_size.height
            &&& rect.width > 0 && rect.height > 0
        }),
{
}

/// A page that is framed needs a screen, and what is prepared keeps the filled page: content is put in,
/// and nothing is taken out.
pub proof fn law_pages_are_prepared(
    html: Seq<char>,
    data: DataView,
    instance: TemplateInstance,
    framed: bool,
    base_href: Seq<char>,
    payload: Seq<char>,
)
    ensures
        ({
            let page = filled(html, data, instance.template.id@);
            let made = prepared(html, data, instance, framed, base_href, payload);
            &&& made is Ok <==> page is Ok && (framed ==> instance.screen is Some)
            &&& made matches Ok(text) ==> text.len() >= page->Ok_0.len() + base_href.len()
        }),
{
    if let Ok(page) = filled(html, data, instance.template.id@) {
        let base = "<base href=\""@ + base_href + "\">"@;
        let script = crate::media_render::template::runtime_script(payload);
        lemma_with_head(page, base);
        let told = crate::media_render::template::with_head(page, base);
        lemma_with_head(told, script);
        let whole = crate::media_render::template::with_head(told, script);
        lemma_with_head(whole, crate::media_render::template::FRAME_STYLES@);
    }
}

proof fn lemma_with_head(html: Seq<char>, content: Seq<char>)
    ensures
        crate::media_render::template::with_head(html, content).len() == html.len()
            + content.len(),
{
    crate::media_render::template::law_head_content_keeps_the_page(html, content);
    let i = choose|i: int|
        0 <= i <= html.len() && #[trigger] html.subrange(0, i) + content + html.subrange(
            i,
            html.len() as int,
        ) == crate::media_render::template::with_head(html, content);
    assert((html.subrange(0, i) + content + html.subrange(i, html.len() as int)).len()
        == html.len() + content.len());
}

/// A list of browsers has each name that is put in, and keeps what it had before.
pub proof fn law_names_are_listed(
    list: Seq<Seq<char>>,
    names: Seq<Seq<char>>,
    n: nat,
)
    requires
        n <= names.len(),
    ensures
        ({
            let all = crate::media_render::chrome::with_names(list, names, n);
            &&& forall|i: int| 0 <= i < n ==> all.contains(#[trigger] names[i])
            &&& all.len() >= list.len()
            &&& all.take(list.len() as int) == list
        }),
    decreases n,
{
    if n > 0 {
        law_names_are_listed(list, names, (n - 1) as nat);
        let before = crate::media_render::chrome::with_names(list, names, (n - 1) as nat);
        let all = crate::media_render::chrome::with_names(list, names, n);
        law_unique_items(before, names[n - 1]);
        assert forall|i: int| 0 <= i < n implies all.contains(#[trigger] names[i]) by {
            if i < n - 1 {
                let k = choose|k: int| 0 <= k < before.len() && before[k] == names[i];
                assert(all.take(before.len() as int)[k] == names[i]);
                assert(all[k] == names[i]);
            }
        }
        assert(all.take(list.len() as int) =~= all.take(before.len() as int).take(
            list.len() as int,
        ));
    } else {
        assert(list.take(list.len() as int) =~= list);
    }
}

/// A browser that is put into a list is there, and where it is an application its program comes before
/// it.
pub proof fn law_browsers_are_listed(list: Seq<Seq<char>>, path: Seq<char>)
    ensures
        path.len() > 0 ==> with_browser(list, path).contains(path),
        path.len() == 0 ==> with_browser(list, path) == list,
        crate::media_render::chrome::program_in(path) matches Some(program) ==> (path.len() > 0
            ==> with_browser(list, path).contains(program)),
        crate::paths::extension_of(path) == Some("app"@) && crate::paths::stem_of(path) is Some
            ==> crate::media_render::chrome::program_in(path) == Some(
            under(
                under(under(path, "Contents"@), "MacOS"@),
                crate::paths::stem_of(path)->0,
            ),
        ),
        crate::paths::extension_of(path) != Some("app"@)
            ==> crate::media_render::chrome::program_in(path) is None,
{
    if let Some(program) = crate::media_render::chrome::program_in(path) {
        law_unique_items(list, program);
        let with_program = with_unique(list, program);
        law_unique_items(with_program, path);
        let all = with_unique(with_program, path);
        let k = choose|k: int| 0 <= k < with_program.len() && with_program[k] == program;
        assert(all.take(with_program.len() as int)[k] == program);
        assert(all[k] == program);
    } else {
        law_unique_items(list, path);
    }
}

/// The screenshot that the browser gives is the bytes of its base64 text.
pub proof fn law_screenshots_are_decoded(result: JsonView, text: Seq<char>, bytes: Seq<u8>)
    requires
        member(result, "data"@) == Some(JsonView::Text(text)),
    ensures
        screenshot_of(result) == Ok::<Seq<u8>, Seq<char>>(bytes)
            <==> crate::seal::base64_bytes_of(text) == Some(bytes),
{
}

/// The exact size of the screenshots of each set.
pub proof fn law_size_of_each_set(set: MediaScreenshotSet)
    ensures
        store_size(set.config_key_of()) == Some(
            match set {
                MediaScreenshotSet::Iphone | MediaScreenshotSet::Iphone67 => Viewport {
                    width: 1320,
                    height: 2868,
                },
                MediaScreenshotSet::Iphone65 => Viewport {
                    width: 1284,
                    height: 2778,
                },
                MediaScreenshotSet::Iphone61 | MediaScreenshotSet::Iphone58 => Viewport {
                    width: 1170,
                    height: 2532,
                },
                MediaScreenshotSet::Iphone55 => Viewport {
                    width: 1242,
                    height: 2208,
                },
                MediaScreenshotSet::Iphone47 => Viewport {
                    width: 750,
                    height: 1334,
                },
                MediaScreenshotSet::Iphone40 => Viewport {
                    width: 640,
                    height: 1136,
                },
                MediaScreenshotSet::Iphone35 => Viewport {
                    width: 640,
                    height: 960,
                },
                MediaScreenshotSet::Ipad | MediaScreenshotSet::Ipad13 => Viewport {
                    width: 2064,
                    height: 2752,
                },
                MediaScreenshotSet::Ipad129 => Viewport {
                    width: 2048,
                    height: 2732,
                },
                MediaScreenshotSet::Ipad11 => Viewport {
                    width: 1668,
                    height: 2420,
                },
                MediaScreenshotSet::Ipad105 => Viewport {
                    width: 1668,
                    height: 2224,
                },
                MediaScreenshotSet::Ipad97 => Viewport {
                    width: 1536,
                    height: 2048,
                },
                MediaScreenshotSet::Mac => Viewport {
                    width: 2880,
                    height: 1800,
                },
                MediaScreenshotSet::AppleTv | MediaScreenshotSet::VisionPro => Viewport {
                    width: 3840,
                    height: 2160,
                },
                MediaScreenshotSet::Watch | MediaScreenshotSet::WatchSeries10 => Viewport {
                    width: 416,
                    height: 496,
                },
                MediaScreenshotSet::WatchUltra => Viewport {
                    width: 422,
                    height: 514,
                },
                MediaScreenshotSet::WatchSeries7 => Viewport {
                    width: 396,
                    height: 484,
                },
                MediaScreenshotSet::WatchSeries4 => Viewport {
                    width: 368,
                    height: 448,
                },
                MediaScreenshotSet::WatchSeries3 => Viewport {
                    width: 312,
                    height: 390,
                },
            },
        ),
{
    crate::config::names::lemma_screenshot_tail(set);
    lemma_sizes();
}

proof fn lemma_sizes()
    ensures
        "iphone"@.len() == 6,
        "iphone67"@.len() == 8,
        "iphone65"@.len() == 8,
        "iphone61"@.len() == 8,
        "iphone58"@.len() == 8,
        "iphone55"@.len() == 8,
        "iphone47"@.len() == 8,
        "iphone40"@.len() == 8,
        "iphone35"@.len() == 8,
        "ipad"@.len() == 4,
        "ipad13"@.len() == 6,
        "ipad129"@.len() == 7,
        "ipad11"@.len() == 6,
        "ipad105"@.len() == 7,
        "ipad97"@.len() == 6,
        "watch"@.len() == 5,
        "watch_ultra"@.len() == 11,
        "watch_series10"@.len() == 14,
        "watch_series7"@.len() == 13,
        "watch_series4"@.len() == 13,
        "watch_series3"@.len() == 13,
        "mac"@.len() == 3,
        "apple_tv"@.len() == 8,
        "vision_pro"@.len() == 10,
        "iphone"@[2] == 'h',
        "ipad13"@[2] == 'a',
        "ipad11"@[2] == 'a',
        "ipad97"@[2] == 'a',
        "iphone67"@[7] == '7',
        "iphone65"@[7] == '5',
        "iphone61"@[7] == '1',
        "iphone67"@[6] == '6',
        "iphone58"@[6] == '5',
        "iphone55"@[6] == '5',
        "iphone47"@[6] == '4',
        "iphone40"@[6] == '4',
        "iphone35"@[6] == '3',
        "iphone67"@[0] == 'i',
        "apple_tv"@[0] == 'a',
        "iphone65"@[6] == '6',
        "iphone65"@[0] == 'i',
        "iphone61"@[6] == '6',
        "iphone61"@[0] == 'i',
        "iphone58"@[7] == '8',
        "iphone55"@[7] == '5',
        "iphone58"@[0] == 'i',
        "iphone55"@[0] == 'i',
        "iphone47"@[7] == '7',
        "iphone40"@[7] == '0',
        "iphone47"@[0] == 'i',
        "iphone40"@[0] == 'i',
        "iphone35"@[0] == 'i',
        "ipad13"@[5] == '3',
        "ipad11"@[5] == '1',
        "ipad13"@[4] == '1',
        "ipad97"@[4] == '9',
        "ipad129"@[5] == '2',
        "ipad105"@[5] == '0',
        "ipad11"@[4] == '1',
        "watch_series7"@[12] == '7',
        "watch_series4"@[12] == '4',
        "watch_series3"@[12] == '3',
{
    reveal_strlit("iphone");
    reveal_strlit("iphone67");
    reveal_strlit("iphone65");
    reveal_strlit("iphone61");
    reveal_strlit("iphone58");
    reveal_strlit("iphone55");
    reveal_strlit("iphone47");
    reveal_strlit("iphone40");
    reveal_strlit("iphone35");
    reveal_strlit("ipad");
    reveal_strlit("ipad13");
    reveal_strlit("ipad129");
    reveal_strlit("ipad11");
    reveal_strlit("ipad105");
    reveal_strlit("ipad97");
    reveal_strlit("watch");
    reveal_strlit("watch_ultra");
    reveal_strlit("watch_series10");
    reveal_strlit("watch_series7");
    reveal_strlit("watch_series4");
    reveal_strlit("watch_series3");
    reveal_strlit("mac");
    reveal_strlit("apple_tv");
    reveal_strlit("vision_pro");
}

/// The screen of a frame is enclosed: no pixel at the edge of the image belongs to it, none that hides
/// what is below, and none beside a clear pixel that is reached from the edge.
pub proof fn law_screens_are_enclosed(frame: Raster, x: int, y: int, a: int, b: int)
    ensures
        x == 0 || y == 0 || x == frame.width - 1 || y == frame.height - 1 ==> !frame.screen(x, y),
        frame.screen(x, y) ==> 0 <= x < frame.width && 0 <= y < frame.height && frame.alpha(x, y)
            <= 50,
        frame.screen(x, y) && frame.outside(a, b) ==> !(a == x && (b == y + 1 || b == y - 1)) && !(b
            == y && (a == x + 1 || a == x - 1)),
{
    if frame.clear(x, y) && (x == 0 || y == 0 || x == frame.width - 1 || y == frame.height - 1) {
        let path = seq![(x, y)];
        assert(frame.leads(path));
        assert(path.last() == (x, y));
    }
    if frame.screen(x, y) && frame.outside(a, b) && ((a == x && (b == y + 1 || b == y - 1)) || (b
        == y && (a == x + 1 || a == x - 1))) {
        let path = choose|path: Seq<(int, int)>| #[trigger]
            frame.leads(path) && path.last() == (a, b);
        let longer = path.push((x, y));
        assert forall|k: int| 0 <= k < longer.len() implies frame.clear(
            (#[trigger] longer[k]).0,
            longer[k].1,
        ) by {
            if k < path.len() {
                assert(longer[k] == path[k]);
            }
        }
        assert forall|k: int|
            #![trigger longer[k]]
            0 < k < longer.len() implies crate::media_render::pixels::side_by_side(
            longer[k - 1],
            longer[k],
        ) by {
            if k < path.len() {
                assert(longer[k] == path[k]);
                assert(longer[k - 1] == path[k - 1]);
            } else {
                assert(longer[k - 1] == path.last());
            }
        }
        assert(longer[0] == path[0]);
        assert(frame.leads(longer));
        assert(longer.last() == (x, y));
        assert(frame.outside(x, y));
    }
}

/// The rectangle around a screen holds all of it, and each of its sides touches it.
pub proof fn law_screens_fill_their_rectangles(frame: Raster, rect: Rect, x: int, y: int)
    requires
        frame.bounded_by(rect),
        frame.screen(x, y),
    ensures
        rect.x <= x < rect.x + rect.width,
        rect.y <= y < rect.y + rect.height,
        rect.x + rect.width <= frame.width,
        rect.y + rect.height <= frame.height,
        exists|a: int, b: int| #[trigger] frame.screen(a, b) && a == rect.x,
        exists|a: int, b: int| #[trigger] frame.screen(a, b) && b == rect.y,
        exists|a: int, b: int| #[trigger] frame.screen(a, b) && a == rect.x + rect.width - 1,
        exists|a: int, b: int| #[trigger] frame.screen(a, b) && b == rect.y + rect.height - 1,
{
}

/// Templates with different ids have different addresses.
pub proof fn law_template_addresses_differ(
    base_url: Seq<char>,
    a: Seq<char>,
    b: Seq<char>,
    width: u32,
    height: u32,
)
    requires
        template_address(base_url, a, width, height) == template_address(
            base_url,
            b,
            width,
            height,
        ),
    ensures
        a == b,
        starts(template_address(base_url, a, width, height), base_url),
        ends(template_address(base_url, a, width, height), percent_encoded(a)),
{
    let whole = template_address(base_url, a, width, height);
    let other = template_address(base_url, b, width, height);
    let head = base_url + "?asc_width="@ + decimal(width as nat) + "&asc_height="@ + decimal(
        height as nat,
    ) + "&asc_id="@;
    assert(whole =~= head + percent_encoded(a));
    assert(other =~= head + percent_encoded(b));
    assert(whole.skip(head.len() as int) =~= percent_encoded(a));
    assert(other.skip(head.len() as int) =~= percent_encoded(b));
    crate::media_render::percent::law_percent_round_trip(a);
    crate::media_render::percent::law_percent_round_trip(b);
    assert(whole.take(base_url.len() as int) =~= base_url);
    assert(whole.skip(whole.len() - percent_encoded(a).len()) =~= percent_encoded(a));
}

/// The values of a localization pass just where each of them resolves.
pub proof fn law_values_pass(context: ResolveContext, values: OrderedMap<Json>, from: int)
    requires
        from >= 0,
    ensures
        values_message(context, values, from) is None <==> forall|i: int|
            from <= i < values.entries().len() ==> resolved(
                context,
                (#[trigger] values.entries()[i]).1,
            ) is Ok,
    decreases values.entries().len() - from,
{
    if from < values.entries().len() {
        law_values_pass(context, values, from + 1);
        if resolved(context, values.entries()[from].1) is Ok && values_message(
            context,
            values,
            from + 1,
        ) is None {
            assert forall|i: int| from <= i < values.entries().len() implies resolved(
                context,
                (#[trigger] values.entries()[i]).1,
            ) is Ok by {
                if i > from {
                }
            }
        }
    }
}

/// A localization can be rendered just where each of its sources is known and each of its values
/// resolves.
pub proof fn law_localizations_can_be_rendered(
    context: ResolveContext,
    spec: AppVersionLocalizationSpec,
)
    ensures
        version_message(context, spec) is None <==> {
            &&& source_known(context, spec.description)
            &&& source_known(context, spec.marketing_url)
            &&& source_known(context, spec.promotional_text)
            &&& source_known(context, spec.support_url)
            &&& source_known(context, spec.whats_new)
            &&& spec.keywords matches Some(KeywordsSpec::String(source)) ==> source_known(
                context,
                Some(source),
            )
            &&& forall|i: int|
                0 <= i < spec.render_strings.entries().len() ==> resolved(
                    context,
                    (#[trigger] spec.render_strings.entries()[i]).1,
                ) is Ok
        },
{
    law_values_pass(context, spec.render_strings, 0);
}

/// Below each place for applications every browser that is known is looked for.
pub proof fn law_browsers_below_a_place(list: Seq<Seq<char>>, root: Seq<char>, n: nat)
    requires
        n <= browser_names().len(),
    ensures
        ({
            let all = with_browsers(list, root, n);
            &&& forall|i: int|
                0 <= i < n ==> all.contains(#[trigger] browser_below(root, browser_names()[i]))
            &&& all.len() >= list.len()
            &&& all.take(list.len() as int) == list
        }),
    decreases n,
{
    if n > 0 {
        law_browsers_below_a_place(list, root, (n - 1) as nat);
        let before = with_browsers(list, root, (n - 1) as nat);
        let all = with_browsers(list, root, n);
        law_unique_items(before, browser_below(root, browser_names()[n - 1]));
        assert forall|i: int| 0 <= i < n implies all.contains(
            #[trigger] browser_below(root, browser_names()[i]),
        ) by {
            if i < n - 1 {
                let wanted = browser_below(root, browser_names()[i]);
                let k = choose|k: int| 0 <= k < before.len() && before[k] == wanted;
                assert(all.take(before.len() as int)[k] == wanted);
                assert(all[k] == wanted);
            }
        }
        assert(all.take(list.len() as int) =~= all.take(before.len() as int).take(
            list.len() as int,
        ));
    } else {
        assert(list.take(list.len() as int) =~= list);
    }
}

/// Each path that is given for a browser is looked at, in its order.
pub proof fn law_paths_are_looked_at(list: Seq<Seq<char>>, paths: Seq<Seq<char>>, n: nat)
    requires
        n <= paths.len(),
    ensures
        ({
            let all = with_paths(list, paths, n);
            &&& forall|i: int|
                0 <= i < n && (#[trigger] paths[i]).len() > 0 ==> all.contains(paths[i])
            &&& all.len() >= list.len()
            &&& all.take(list.len() as int) == list
        }),
    decreases n,
{
    if n > 0 {
        law_paths_are_looked_at(list, paths, (n - 1) as nat);
        let before = with_paths(list, paths, (n - 1) as nat);
        let all = with_paths(list, paths, n);
        law_browsers_are_listed(before, paths[n - 1]);
        lemma_browser_keeps(before, paths[n - 1]);
        assert forall|i: int| 0 <= i < n && (#[trigger] paths[i]).len() > 0 implies all.contains(
            paths[i],
        ) by {
            if i < n - 1 {
                let k = choose|k: int| 0 <= k < before.len() && before[k] == paths[i];
                assert(all.take(before.len() as int)[k] == paths[i]);
                assert(all[k] == paths[i]);
            }
        }
        assert(all.take(list.len() as int) =~= all.take(before.len() as int).take(
            list.len() as int,
        ));
    } else {
        assert(list.take(list.len() as int) =~= list);
    }
}

proof fn lemma_browser_keeps(list: Seq<Seq<char>>, path: Seq<char>)
    ensures
        with_browser(list, path).len() >= list.len(),
        with_browser(list, path).take(list.len() as int) == list,
{
    if path.len() > 0 {
        if let Some(program) = crate::media_render::chrome::program_in(path) {
            let middle = with_unique(list, program);
            law_unique_items(list, program);
            law_unique_items(middle, path);
            let all = with_unique(middle, path);
            assert(all.take(list.len() as int) =~= all.take(middle.len() as int).take(
                list.len() as int,
            ));
        } else {
            law_unique_items(list, path);
        }
    } else {
        assert(list.take(list.len() as int) =~= list);
    }
}

} // verus!
