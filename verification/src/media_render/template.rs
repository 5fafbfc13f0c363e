//! HTML templates: their variables, and what is put into their heads.

use vstd::prelude::*;
use vstd::string::*;
use crate::app_store::resolve::{safe_path_segment, safe_segment};
use crate::json::{member, text, Json, JsonView, Members};
use crate::markup::{html_escape, html_escaped};
use crate::media_render::frame::{FrameSpec, RenderContext};
use crate::text::{
    cat, cat3, decimal, decimal_text, failure, find_chars, first_place, lemma_first_place, lowered,
    owned, parse_number, parsed_number, pieces, replace, replaced, same, split, text_between, texts,
    to_chars, to_lower, trim, trimmed, Error,
};

verus! {

/// A template.
#[derive(Debug)]
pub struct HtmlTemplate {
    pub path: String,
    pub id: String,
}

/// A template and the image that is put into its frames.
#[derive(Debug)]
pub struct TemplateInstance {
    pub template: HtmlTemplate,
    pub screen: Option<String>,
}

/// What the variables of a template stand for.
#[derive(Debug)]
pub struct TemplateData {
    pub locale: Option<String>,
    pub strings: Json,
}

/// What the variables of a template stand for.
pub struct DataView {
    pub locale: Option<Seq<char>>,
    pub strings: JsonView,
}

impl View for TemplateData {
    type V = DataView;

    open spec fn view(&self) -> DataView {
        DataView { locale: owned(self.locale), strings: self.strings@ }
    }
}

/// The value that a path of steps leads to: a step is the key of an object, or the place in an array.
pub open spec fn looked_up(value: JsonView, steps: Seq<Seq<char>>, i: int) -> Option<JsonView>
    decreases steps.len() - i,
{
    if i < 0 || i >= steps.len() {
        Some(value)
    } else if steps[i].len() == 0 {
        None
    } else {
        match value {
            JsonView::Object(_) => match member(value, steps[i]) {
                Some(inner) => looked_up(inner, steps, i + 1),
                None => None,
            },
            JsonView::Array(items) => match parsed_number(steps[i], items.len()) {
                Some(n) => if n < items.len() {
                    looked_up(items[n as int], steps, i + 1)
                } else {
                    None
                },
                None => None,
            },
            _ => None,
        }
    }
}

/// The value that a path with dots leads to.
pub fn lookup_json_path<'a>(value: &'a Json, path: &str) -> (found: Option<&'a Json>)
    ensures
        match looked_up(value@, pieces(path@, '.'), 0) {
            Some(view) => found matches Some(inner) && inner@ == view,
            None => found is None,
        },
{
    let steps = split(path, '.');
    let ghost names = pieces(path@, '.');
    let mut current = value;
    let mut i: usize = 0;
    while i < steps.len()
        invariant
            i <= steps.len(),
            texts(steps@) == names,
            names == pieces(path@, '.'),
            looked_up(value@, names, 0) == looked_up(current@, names, i as int),
        decreases steps.len() - i,
    {
        let step = steps[i].as_str();
        proof {
            assert(texts(steps@)[i as int] == step@);
        }
        if step.unicode_len() == 0 {
            return None;
        }
        match current {
            Json::Object(_) => match current.get(step) {
                Some(inner) => {
                    current = inner;
                },
                None => {
                    return None;
                },
            },
            Json::Array(items) => {
                let n: usize = items.len();
                match parse_number(step, n as u64) {
                    Some(place) => {
                        if place as usize >= n {
                            return None;
                        }
                        current = &items[place as usize];
                    },
                    None => {
                        return None;
                    },
                }
            },
            _ => {
                return None;
            },
        }
        i += 1;
    }
    proof {
        assert(texts(steps@).len() == steps.len());
    }
    Some(current)
}

/// How a message names a variable.
pub open spec fn variable_name(key: Seq<char>) -> Seq<char> {
    "template variable {{"@ + key + "}}"@
}

/// The text of a value that is no array or object.
pub open spec fn scalar_text(value: JsonView, key: Seq<char>) -> Result<Seq<char>, Seq<char>> {
    match value {
        JsonView::Null => Ok(Seq::empty()),
        JsonView::Bool(b) => Ok(
            if b {
                "true"@
            } else {
                "false"@
            },
        ),
        JsonView::Number(number) => Ok(number),
        JsonView::Text(s) => Ok(s),
        _ => Err(variable_name(key) + " must resolve to a scalar value"@),
    }
}

/// The result is a text, or fails with a message.
pub open spec fn gives(
    result: Result<String, Error>,
    expected: Result<Seq<char>, Seq<char>>,
) -> bool {
    match expected {
        Ok(s) => result matches Ok(found) && found@ == s,
        Err(message) => result matches Err(error) && error@ == message,
    }
}

/// The text of a value that is no array or object.
pub fn json_value_to_template_string(value: &Json, key: &str) -> (result: Result<String, Error>)
    ensures
        gives(result, scalar_text(value@, key@)),
{
    match value {
        Json::Null => {
            let empty = String::new();
            proof {
                assert(empty@ =~= Seq::<char>::empty());
            }
            Ok(empty)
        },
        Json::Bool(b) => if *b {
            Ok("true".to_owned())
        } else {
            Ok("false".to_owned())
        },
        Json::Number(number) => Ok(number.clone()),
        Json::Text(s) => Ok(s.clone()),
        _ => Err(
            failure(
                cat3("template variable {{", key, "}}").concat(" must resolve to a scalar value"),
            ),
        ),
    }
}

/// What a variable stands for: the name of the template, its locale, or one of its strings.
pub open spec fn variable_text(data: DataView, template_id: Seq<char>, key: Seq<char>) -> Result<
    Seq<char>,
    Seq<char>,
> {
    if key == "asc_id"@ || key == "id"@ {
        Ok(template_id)
    } else if key == "locale"@ {
        Ok(
            match data.locale {
                Some(locale) => locale,
                None => Seq::empty(),
            },
        )
    } else {
        match looked_up(data.strings, pieces(key, '.'), 0) {
            Some(value) => scalar_text(value, key),
            None => Err(variable_name(key) + " was not found"@),
        }
    }
}

/// What a variable stands for.
pub fn resolve_template_variable(
    data: &TemplateData,
    template_id: &str,
    key: &str,
) -> (result: Result<
    String,
    Error,
>)
    ensures
        gives(result, variable_text(data@, template_id@, key@)),
{
    if same(key, "asc_id") || same(key, "id") {
        return Ok(template_id.to_owned());
    }
    if same(key, "locale") {
        return match &data.locale {
            Some(locale) => Ok(locale.clone()),
            None => {
                let empty = String::new();
                proof {
                    assert(empty@ =~= Seq::<char>::empty());
                }
                Ok(empty)
            },
        };
    }
    match lookup_json_path(&data.strings, key) {
        Some(value) => json_value_to_template_string(value, key),
        None => Err(
            failure(cat3("template variable {{", key, "}}").concat(" was not found")),
        ),
    }
}

/// A template from a place on, with its variables filled in. What they stand for is written as HTML.
pub open spec fn filled_from(
    html: Seq<char>,
    data: DataView,
    template_id: Seq<char>,
    from: int,
) -> Result<
    Seq<char>,
    Seq<char>,
>
    decreases html.len() - from,
{
    if from < 0 || from > html.len() {
        Ok(Seq::empty())
    } else {
        match first_place(html, seq!['{', '{'], from) {
            None => Ok(html.skip(from)),
            Some(start) => match first_place(html, seq!['}', '}'], start + 2) {
                None => Err("unclosed template variable in "@ + template_id),
                Some(end) => {
                    proof {
                        lemma_first_place(html, seq!['{', '{'], from);
                        lemma_first_place(html, seq!['}', '}'], start + 2);
                    }
                    let key = trimmed(html.subrange(start + 2, end));
                    if key.len() == 0 {
                        Err("empty template variable in "@ + template_id)
                    } else {
                        match variable_text(data, template_id, key) {
                            Err(message) => Err(message),
                            Ok(value) => match filled_from(html, data, template_id, end + 2) {
                                Err(message) => Err(message),
                                Ok(rest) => Ok(
                                    html.subrange(from, start) + html_escaped(value) + rest,
                                ),
                            },
                        }
                    }
                },
            },
        }
    }
}

/// A template with its variables filled in.
pub open spec fn filled(html: Seq<char>, data: DataView, template_id: Seq<char>) -> Result<
    Seq<char>,
    Seq<char>,
> {
    filled_from(html, data, template_id, 0)
}

fn two(c: char) -> (chars: Vec<char>)
    ensures
        chars@ == seq![c, c],
{
    let mut chars: Vec<char> = Vec::new();
    chars.push(c);
    chars.push(c);
    proof {
        assert(chars@ =~= seq![c, c]);
    }
    chars
}

/// Fills in the variables of a template.
pub fn apply_template_variables(
    html: &str,
    data: &TemplateData,
    template_id: &str,
) -> (result: Result<
    String,
    Error,
>)
    ensures
        gives(result, filled(html@, data@, template_id@)),
{
    let chars = to_chars(html);
    let open = two('{');
    let close = two('}');
    let mut out = String::new();
    let mut from: usize = 0;
    proof {
        if let Ok(rest) = filled(html@, data@, template_id@) {
            assert(out@ + rest =~= rest);
        }
    }
    while from <= chars.len()
        invariant
            from <= chars.len(),
            chars@ == html@,
            open@ == seq!['{', '{'],
            close@ == seq!['}', '}'],
            filled(html@, data@, template_id@) == (match filled_from(
                html@,
                data@,
                template_id@,
                from as int,
            ) {
                Ok(rest) => Ok(out@ + rest),
                Err(message) => Err(message),
            }),
        decreases chars.len() - from,
    {
        let ghost before = out@;
        let start: usize = match find_chars(&chars, &open, from) {
            Some(i) => i,
            None => {
                proof {
                    assert(html@.skip(from as int) =~= html@.subrange(
                        from as int,
                        html@.len() as int,
                    ));
                }
                return Ok(cat(out.as_str(), text_between(&chars, from, chars.len()).as_str()));
            },
        };
        let end: usize = match find_chars(&chars, &close, start + 2) {
            Some(i) => i,
            None => {
                return Err(failure(cat("unclosed template variable in ", template_id)));
            },
        };
        let inner = text_between(&chars, start + 2, end);
        let key = trim(inner.as_str());
        if key.unicode_len() == 0 {
            return Err(failure(cat("empty template variable in ", template_id)));
        }
        let value = match resolve_template_variable(data, template_id, key) {
            Ok(found) => found,
            Err(error) => {
                return Err(error);
            },
        };
        let piece = text_between(&chars, from, start);
        out = out.concat(piece.as_str()).concat(html_escape(value.as_str()).as_str());
        proof {
            if let Ok(rest) = filled_from(html@, data@, template_id@, end + 2) {
                let a = html@.subrange(from as int, start as int);
                let b = html_escaped(value@);
                assert(before + (a + b + rest) =~= before + a + b + rest);
            }
        }
        from = end + 2;
    }
    Ok(out)
}

/// A template without variables stays as it is.
pub proof fn law_plain_templates_stay(html: Seq<char>, data: DataView, template_id: Seq<char>)
    requires
        first_place(html, seq!['{', '{'], 0) is None,
    ensures
        filled(html, data, template_id) == Ok::<Seq<char>, Seq<char>>(html),
{
    assert(html.skip(0) =~= html);
}

/// The place behind the opening tag of the head, if a page has one.
pub open spec fn head_place(html: Seq<char>) -> Option<int> {
    match first_place(lowered(html), "<head"@, 0) {
        None => None,
        Some(start) => match first_place(html, seq!['>'], start) {
            None => None,
            Some(end) => Some(end + 1),
        },
    }
}

/// A page with more in its head, or before everything else where it has none.
pub open spec fn with_head(html: Seq<char>, content: Seq<char>) -> Seq<char> {
    match head_place(html) {
        Some(i) => html.subrange(0, i) + content + html.subrange(i, html.len() as int),
        None => content + html,
    }
}

/// Puts more into the head of a page.
pub fn inject_head_content(html: &str, content: &str) -> (page: String)
    ensures
        page@ == with_head(html@, content@),
{
    let chars = to_chars(html);
    let small = to_chars(to_lower(html).as_str());
    let head = to_chars("<head");
    let mut close: Vec<char> = Vec::new();
    close.push('>');
    proof {
        assert(close@ =~= seq!['>']);
    }
    if let Some(start) = find_chars(&small, &head, 0) {
        if let Some(end) = find_chars(&chars, &close, start) {
            return cat3(
                text_between(&chars, 0, end + 1).as_str(),
                content,
                text_between(&chars, end + 1, chars.len()).as_str(),
            );
        }
    }
    cat(content, html)
}

/// Putting something into a page keeps all of the page around it.
pub proof fn law_head_content_keeps_the_page(html: Seq<char>, content: Seq<char>)
    ensures
        exists|i: int|
            0 <= i <= html.len() && #[trigger] html.subrange(0, i) + content + html.subrange(
                i,
                html.len() as int,
            ) == with_head(html, content),
{
    match head_place(html) {
        Some(i) => {
            lemma_first_place(lowered(html), "<head"@, 0);
            let start = first_place(lowered(html), "<head"@, 0)->0;
            lemma_first_place(html, seq!['>'], start);
            assert(html.subrange(0, i) + content + html.subrange(i, html.len() as int)
                == with_head(html, content));
        },
        None => {
            assert(html.subrange(0, 0) + content + html.subrange(0, html.len() as int) =~= content
                + html);
        },
    }
}

/// Gives a page the address to which its relative addresses belong.
pub fn inject_base(html: &str, href: &str) -> (page: String)
    ensures
        page@ == with_head(html@, "<base href=\""@ + href@ + "\">"@),
{
    inject_head_content(html, cat3("<base href=\"", href, "\">").as_str())
}

/// The style of frames that were filled.
pub const FRAME_STYLES: &'static str = "<style data-asc-sync-frame>\nasc-device-frame[data-asc-rendered] {\n  display: block;\n}\nasc-device-frame[data-asc-rendered] > .asc-device-frame__image {\n  display: block;\n  width: 100%;\n  height: 100%;\n  object-fit: contain;\n  pointer-events: none;\n  user-select: none;\n}\n</style>";

/// Gives a page the style of frames that were filled.
pub fn inject_frame_styles(html: &str) -> (page: String)
    ensures
        page@ == with_head(html@, FRAME_STYLES@),
{
    inject_head_content(html, FRAME_STYLES)
}

/// A number as JSON.
pub open spec fn number_view(n: u32) -> JsonView {
    JsonView::Number(decimal(n as nat))
}

fn number(n: u32) -> (value: Json)
    ensures
        value@ == number_view(n),
{
    Json::Number(decimal_text(n as u64))
}

/// What a page is told of its frame.
pub open spec fn frame_view(frame: Option<FrameSpec>) -> JsonView {
    match frame {
        None => JsonView::Null,
        Some(spec) => JsonView::Object(
            map![
                "name"@ => JsonView::Text(spec.name@),
                "image"@ => JsonView::Object(
                    map![
                        "width"@ => number_view(spec.image_size.width),
                        "height"@ => number_view(spec.image_size.height)
                    ],
                ),
                "screen"@ => JsonView::Object(
                    map![
                        "x"@ => number_view(spec.screen.x),
                        "y"@ => number_view(spec.screen.y),
                        "width"@ => number_view(spec.screen.width),
                        "height"@ => number_view(spec.screen.height)
                    ],
                )
            ],
        ),
    }
}

fn frame_json(frame: &Option<FrameSpec>) -> (value: Json)
    ensures
        value@ == frame_view(*frame),
{
    match frame {
        None => Json::Null,
        Some(spec) => {
            let mut image = Members::new();
            image.put("width", number(spec.image_size.width));
            image.put("height", number(spec.image_size.height));
            let mut screen = Members::new();
            screen.put("x", number(spec.screen.x));
            screen.put("y", number(spec.screen.y));
            screen.put("width", number(spec.screen.width));
            screen.put("height", number(spec.screen.height));
            let mut all = Members::new();
            all.put("name", text(spec.name.as_str()));
            all.put("image", image.into_json());
            all.put("screen", screen.into_json());
            all.into_json()
        },
    }
}

/// What a page is told of how it is rendered.
pub open spec fn payload_view(
    context: RenderContext,
    data: DataView,
    template_id: Seq<char>,
) -> JsonView {
    JsonView::Object(
        map![
            "id"@ => JsonView::Text(template_id),
            "locale"@ => (match data.locale {
                Some(locale) => JsonView::Text(locale),
                None => JsonView::Null,
            }),
            "viewport"@ => JsonView::Object(
                map![
                    "width"@ => number_view(context.viewport.width),
                    "height"@ => number_view(context.viewport.height)
                ],
            ),
            "frame"@ => frame_view(context.frame),
            "strings"@ => data.strings
        ],
    )
}

/// What a page is told of how it is rendered.
pub fn runtime_payload(context: &RenderContext, data: &TemplateData, template_id: &str) -> (payload:
    Json)
    ensures
        payload@ == payload_view(*context, data@, template_id@),
{
    let mut viewport = Members::new();
    viewport.put("width", number(context.viewport.width));
    viewport.put("height", number(context.viewport.height));
    let mut all = Members::new();
    all.put("id", text(template_id));
    all.put(
        "locale",
        match &data.locale {
            Some(locale) => text(locale.as_str()),
            None => Json::Null,
        },
    );
    all.put("viewport", viewport.into_json());
    all.put("frame", frame_json(&context.frame));
    all.put("strings", data.strings.copy());
    all.into_json()
}

/// The script that tells a page how it is rendered, by the text of what it is told.
pub open spec fn runtime_script(payload: Seq<char>) -> Seq<char> {
    "<script>\nwindow.ASC_SYNC = "@ + replaced(payload, "</script"@, "<\\/script"@)

            + ";\nif (window.ASC_SYNC.locale && !document.documentElement.lang) {\n  document.documentElement.lang = window.ASC_SYNC.locale;\n}\n</script>"@
}

/// Tells a page how it is rendered, by the text of what it is told.
pub fn inject_template_runtime(html: &str, payload: &str) -> (page: String)
    ensures
        page@ == with_head(html@, runtime_script(payload@)),
{
    proof {
        reveal_strlit("</script");
    }
    let script = cat3(
        "<script>\nwindow.ASC_SYNC = ",
        replace(payload, "</script", "<\\/script").as_str(),
        ";\nif (window.ASC_SYNC.locale && !document.documentElement.lang) {\n  document.documentElement.lang = window.ASC_SYNC.locale;\n}\n</script>",
    );
    inject_head_content(html, script.as_str())
}

/// A page that is ready for its frames: filled, with its base, with what it is told, and with the
/// style of frames where it has one.
pub open spec fn prepared(
    html: Seq<char>,
    data: DataView,
    instance: TemplateInstance,
    framed: bool,
    base_href: Seq<char>,
    payload: Seq<char>,
) -> Result<Seq<char>, Seq<char>> {
    match filled(html, data, instance.template.id@) {
        Err(message) => Err(message),
        Ok(page) => {
            let told = with_head(
                with_head(page, "<base href=\""@ + base_href + "\">"@),
                runtime_script(payload),
            );
            if !framed {
                Ok(told)
            } else if instance.screen is None {
                Err(
                    "template "@ + instance.template.path@
                        + " uses --frame but no --screen image was resolved"@,
                )
            } else {
                Ok(with_head(told, FRAME_STYLES@))
            }
        },
    }
}

/// Makes a page ready for its frames.
pub fn prepare_template_html(
    html: &str,
    data: &TemplateData,
    instance: &TemplateInstance,
    framed: bool,
    base_href: &str,
    payload: &str,
) -> (result: Result<String, Error>)
    ensures
        gives(result, prepared(html@, data@, *instance, framed, base_href@, payload@)),
{
    let page = match apply_template_variables(html, data, instance.template.id.as_str()) {
        Ok(filled_page) => filled_page,
        Err(error) => {
            return Err(error);
        },
    };
    let based = inject_base(page.as_str(), base_href);
    let told = inject_template_runtime(based.as_str(), payload);
    if !framed {
        return Ok(told);
    }
    if instance.screen.is_none() {
        return Err(
            failure(
                cat3(
                    "template ",
                    instance.template.path.as_str(),
                    " uses --frame but no --screen image was resolved",
                ),
            ),
        );
    }
    Ok(inject_frame_styles(told.as_str()))
}

/// A text as the name of a file: every other character becomes a dash.
pub fn safe_file_stem(value: &str) -> (result: String)
    ensures
        result@ == safe_segment(value@),
        !result@.contains('/'),
{
    safe_path_segment(value)
}

} // verus!
