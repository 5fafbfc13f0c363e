//! What the variables of templates stand for, by the texts of the configuration.

use vstd::prelude::*;
use vstd::string::*;
use crate::app_store::resolve::{missing_message, ResolveContext};
use crate::config::{AppVersionLocalizationSpec, CustomProductPageLocalizationSpec, StringSource};
use crate::json::{json_view, text, Json, JsonView, Members};
use crate::media_render::template::{DataView, TemplateData};
use crate::ordered::OrderedMap;
use crate::text::{earlier, failure, same, Error};

verus! {

/// The variable that an object stands for: its only member is `$env`, a text.
pub open spec fn env_key(object: OrderedMap<Json>) -> Option<Seq<char>> {
    if object.entries().len() == 1 && object.entries()[0].0 == "$env"@ {
        match object.entries()[0].1 {
            Json::Text(key) => Some(key@),
            _ => None,
        }
    } else {
        None
    }
}

/// A value with its variables filled in. What fails below an object is told as one message.
pub open spec fn resolved(context: ResolveContext, value: Json) -> Result<JsonView, Seq<char>>
    decreases value, 0nat,
{
    match value {
        Json::Object(object) => match env_key(object) {
            Some(key) => match context.variable(key) {
                Some(found) => Ok(JsonView::Text(found)),
                None => Err(missing_message(key)),
            },
            None => match resolved_members(context, object, object.entries().len()) {
                Some(members) => Ok(JsonView::Object(members)),
                None => Err("failed to resolve render string value"@),
            },
        },
        Json::Array(items) => match resolved_items(context, items, items@.len()) {
            Ok(views) => Ok(JsonView::Array(views)),
            Err(message) => Err(message),
        },
        _ => Ok(json_view(value)),
    }
}

/// The first `n` members of an object with their variables filled in.
pub open spec fn resolved_members(
    context: ResolveContext,
    object: OrderedMap<Json>,
    n: nat,
) -> Option<
    Map<Seq<char>, JsonView>,
>
    decreases object, n,
{
    if n == 0 || n > object.entries().len() {
        Some(Map::empty())
    } else {
        proof {
            object.lemma_entry_decreases(n - 1);
        }
        match resolved_members(context, object, (n - 1) as nat) {
            None => None,
            Some(before) => match resolved(context, object.entries()[n - 1].1) {
                Ok(view) => Some(before.insert(object.entries()[n - 1].0, view)),
                Err(_) => None,
            },
        }
    }
}

/// The first `n` items of an array with their variables filled in.
pub open spec fn resolved_items(context: ResolveContext, items: Vec<Json>, n: nat) -> Result<
    Seq<JsonView>,
    Seq<char>,
>
    decreases items, n,
{
    if n == 0 || n > items@.len() {
        Ok(Seq::empty())
    } else {
        proof {
            assert(decreases_to!(items => items@));
            assert(decreases_to!(items@ => items@[n - 1]));
        }
        match resolved_items(context, items, (n - 1) as nat) {
            Err(message) => Err(message),
            Ok(before) => match resolved(context, items@[n - 1]) {
                Ok(view) => Ok(before.push(view)),
                Err(message) => Err(message),
            },
        }
    }
}

/// The result is a value, or fails with a message.
pub open spec fn resolves(
    result: Result<Json, Error>,
    expected: Result<JsonView, Seq<char>>,
) -> bool {
    match expected {
        Ok(view) => result matches Ok(value) && value@ == view,
        Err(message) => result matches Err(error) && error@ == message,
    }
}

fn find_env_key(object: &OrderedMap<Json>) -> (key: Option<&String>)
    ensures
        match env_key(*object) {
            Some(view) => key matches Some(found) && found@ == view,
            None => key is None,
        },
{
    if object.len() != 1 || !same(object.key_at(0).as_str(), "$env") {
        return None;
    }
    match object.value_at(0) {
        Json::Text(key) => Some(key),
        _ => None,
    }
}

proof fn lemma_lost_member(context: ResolveContext, object: OrderedMap<Json>, i: nat, n: nat)
    requires
        i < n <= object.entries().len(),
        resolved(context, object.entries()[i as int].1) is Err,
    ensures
        resolved_members(context, object, n) is None,
    decreases n,
{
    if i < n - 1 {
        lemma_lost_member(context, object, i, (n - 1) as nat);
    }
}

proof fn lemma_lost_item(context: ResolveContext, items: Vec<Json>, i: nat, n: nat)
    requires
        i < n <= items@.len(),
        resolved_items(context, items, i) is Ok,
        resolved(context, items@[i as int]) is Err,
    ensures
        resolved_items(context, items, n) == Err::<Seq<JsonView>, Seq<char>>(
            resolved(context, items@[i as int])->Err_0,
        ),
    decreases n,
{
    if i < n - 1 {
        lemma_lost_item(context, items, i, (n - 1) as nat);
    }
}

/// A value with its variables filled in.
pub fn resolve_json_value(context: &ResolveContext, value: &Json) -> (result: Result<Json, Error>)
    ensures
        resolves(result, resolved(*context, *value)),
    decreases value,
{
    match value {
        Json::Object(object) => {
            if let Some(key) = find_env_key(object) {
                return match context.resolve_string(&StringSource::Env { env: key.clone() }) {
                    Ok(found) => Ok(Json::Text(found)),
                    Err(error) => Err(error),
                };
            }
            let n: usize = object.len();
            let mut members = Members::new();
            let mut i: usize = 0;
            while i < n
                invariant
                    value matches Json::Object(own) && own == object,
                    env_key(*object) is None,
                    n == object.entries().len(),
                    i <= n,
                    resolved_members(*context, *object, i as nat) == Some(members@),
                decreases n - i,
            {
                proof {
                    object.lemma_entry_decreases(i as int);
                }
                match resolve_json_value(context, object.value_at(i)) {
                    Ok(inner) => {
                        members.put(object.key_at(i).as_str(), inner);
                    },
                    Err(_) => {
                        proof {
                            lemma_lost_member(*context, *object, i as nat, n as nat);
                        }
                        return Err(failure("failed to resolve render string value".to_owned()));
                    },
                }
                i += 1;
            }
            Ok(members.into_json())
        },
        Json::Array(items) => {
            let mut all: Vec<Json> = Vec::new();
            let ghost mut views: Seq<JsonView> = Seq::empty();
            let mut i: usize = 0;
            while i < items.len()
                invariant
                    value matches Json::Array(own) && own == items,
                    i <= items.len(),
                    all@.len() == i,
                    views.len() == i,
                    resolved_items(*context, *items, i as nat) == Ok::<Seq<JsonView>, Seq<char>>(
                        views,
                    ),
                    forall|k: int| 0 <= k < i ==> (#[trigger] all@[k])@ == views[k],
                decreases items.len() - i,
            {
                match resolve_json_value(context, &items[i]) {
                    Ok(inner) => {
                        proof {
                            views = views.push(inner@);
                        }
                        all.push(inner);
                    },
                    Err(error) => {
                        proof {
                            lemma_lost_item(*context, *items, i as nat, items@.len());
                        }
                        return Err(error);
                    },
                }
                i += 1;
            }
            let array = Json::Array(all);
            proof {
                assert(array@->Array_0 =~= views);
            }
            Ok(array)
        },
        _ => Ok(value.copy()),
    }
}

/// The strings with a text under a key, if there is one.
pub open spec fn with_text(
    strings: Map<Seq<char>, JsonView>,
    key: Seq<char>,
    value: Option<Seq<char>>,
) -> Map<Seq<char>, JsonView> {
    match value {
        Some(found) => strings.insert(key, JsonView::Text(found)),
        None => strings,
    }
}

/// Puts a text under a key, if there is one.
pub fn insert_optional_render_string(
    strings: &mut Members,
    key: &str,
    source: &Option<StringSource>,
    context: &ResolveContext,
) -> (result: Result<(), Error>)
    ensures
        crate::text::fails_as(result, context.lacks(*source)),
        final(strings)@ == with_text(old(strings)@, key@, context.optional_text(*source)),
{
    match context.resolve_optional_string(source) {
        Ok(Some(found)) => {
            strings.put(key, text(found.as_str()));
            Ok(())
        },
        Ok(None) => Ok(()),
        Err(error) => Err(error),
    }
}

/// The strings with the first `n` values of a page.
pub open spec fn with_values(
    strings: Map<Seq<char>, JsonView>,
    context: ResolveContext,
    values: OrderedMap<Json>,
    n: nat,
) -> Map<Seq<char>, JsonView>
    decreases n,
{
    if n == 0 || n > values.entries().len() {
        strings
    } else {
        let before = with_values(strings, context, values, (n - 1) as nat);
        match resolved(context, values.entries()[n - 1].1) {
            Ok(view) => before.insert(values.entries()[n - 1].0, view),
            Err(_) => before,
        }
    }
}

/// The message of the first value of a page from place `i` on whose variable is missing.
pub open spec fn values_message(
    context: ResolveContext,
    values: OrderedMap<Json>,
    i: int,
) -> Option<
    Seq<char>,
>
    decreases values.entries().len() - i,
{
    if i < 0 || i >= values.entries().len() {
        None
    } else {
        match resolved(context, values.entries()[i].1) {
            Err(message) => Some(message),
            Ok(_) => values_message(context, values, i + 1),
        }
    }
}

fn insert_values(
    strings: &mut Members,
    values: &OrderedMap<Json>,
    context: &ResolveContext,
) -> (result: Result<(), Error>)
    ensures
        crate::text::fails_as(result, values_message(*context, *values, 0)),
        result is Ok ==> final(strings)@ == with_values(
            old(strings)@,
            *context,
            *values,
            values.entries().len(),
        ),
{
    let n: usize = values.len();
    let mut i: usize = 0;
    while i < n
        invariant
            i <= n == values.entries().len(),
            values_message(*context, *values, 0) == values_message(*context, *values, i as int),
            strings@ == with_values(old(strings)@, *context, *values, i as nat),
        decreases n - i,
    {
        match resolve_json_value(context, values.value_at(i)) {
            Ok(value) => {
                strings.put(values.key_at(i).as_str(), value);
            },
            Err(error) => {
                return Err(error);
            },
        }
        i += 1;
    }
    Ok(())
}

/// The result is what templates are filled with, or fails with a message.
pub open spec fn loads(
    result: Result<TemplateData, Error>,
    message: Option<Seq<char>>,
    locale: Seq<char>,
    strings: Map<Seq<char>, JsonView>,
) -> bool {
    match message {
        Some(text) => result matches Err(error) && error@ == text,
        None => result matches Ok(data) && data@ == (DataView {
            locale: Some(locale),
            strings: JsonView::Object(strings),
        }),
    }
}

/// What is missing in the texts of a version.
pub open spec fn version_message(
    context: ResolveContext,
    spec: AppVersionLocalizationSpec,
) -> Option<
    Seq<char>,
> {
    earlier(
        context.lacks(spec.description),
        earlier(
            context.lacks(spec.marketing_url),
            earlier(
                context.lacks(spec.promotional_text),
                earlier(
                    context.lacks(spec.support_url),
                    earlier(
                        context.lacks(spec.whats_new),
                        earlier(
                            context.keywords_lack(spec.keywords),
                            values_message(context, spec.render_strings, 0),
                        ),
                    ),
                ),
            ),
        ),
    )
}

/// The texts of a version.
pub open spec fn version_texts(context: ResolveContext, spec: AppVersionLocalizationSpec) -> Map<
    Seq<char>,
    JsonView,
> {
    let a = with_text(Map::empty(), "description"@, context.optional_text(spec.description));
    let b = with_text(a, "marketing_url"@, context.optional_text(spec.marketing_url));
    let c = with_text(b, "promotional_text"@, context.optional_text(spec.promotional_text));
    let d = with_text(c, "support_url"@, context.optional_text(spec.support_url));
    let e = with_text(d, "whats_new"@, context.optional_text(spec.whats_new));
    with_text(e, "keywords"@, context.keywords_text(spec.keywords))
}

/// What templates are filled with for a version: its texts, and its own strings over them.
pub fn load_version_config_template_data(
    context: &ResolveContext,
    locale: &str,
    spec: &AppVersionLocalizationSpec,
) -> (result: Result<TemplateData, Error>)
    ensures
        loads(
            result,
            version_message(*context, *spec),
            locale@,
            with_values(
                version_texts(*context, *spec),
                *context,
                spec.render_strings,
                spec.render_strings.entries().len(),
            ),
        ),
{
    let mut strings = Members::new();
    if let Err(error) = insert_optional_render_string(
        &mut strings,
        "description",
        &spec.description,
        context,
    ) {
        return Err(error);
    }
    if let Err(error) = insert_optional_render_string(
        &mut strings,
        "marketing_url",
        &spec.marketing_url,
        context,
    ) {
        return Err(error);
    }
    if let Err(error) = insert_optional_render_string(
        &mut strings,
        "promotional_text",
        &spec.promotional_text,
        context,
    ) {
        return Err(error);
    }
    if let Err(error) = insert_optional_render_string(
        &mut strings,
        "support_url",
        &spec.support_url,
        context,
    ) {
        return Err(error);
    }
    if let Err(error) = insert_optional_render_string(
        &mut strings,
        "whats_new",
        &spec.whats_new,
        context,
    ) {
        return Err(error);
    }
    match context.resolve_keywords(&spec.keywords) {
        Ok(Some(keywords)) => {
            strings.put("keywords", text(keywords.as_str()));
        },
        Ok(None) => {},
        Err(error) => {
            return Err(error);
        },
    }
    if let Err(error) = insert_values(&mut strings, &spec.render_strings, context) {
        return Err(error);
    }
    Ok(TemplateData { locale: Some(locale.to_owned()), strings: strings.into_json() })
}

/// What templates are filled with for a custom product page: its promotional text, and its own strings
/// over it.
pub fn load_custom_product_page_config_template_data(
    context: &ResolveContext,
    locale: &str,
    spec: &CustomProductPageLocalizationSpec,
) -> (result: Result<TemplateData, Error>)
    ensures
        loads(
            result,
            earlier(
                context.lacks(spec.promotional_text),
                values_message(*context, spec.render_strings, 0),
            ),
            locale@,
            with_values(
                with_text(
                    Map::empty(),
                    "promotional_text"@,
                    context.optional_text(spec.promotional_text),
                ),
                *context,
                spec.render_strings,
                spec.render_strings.entries().len(),
            ),
        ),
{
    let mut strings = Members::new();
    if let Err(error) = insert_optional_render_string(
        &mut strings,
        "promotional_text",
        &spec.promotional_text,
        context,
    ) {
        return Err(error);
    }
    if let Err(error) = insert_values(&mut strings, &spec.render_strings, context) {
        return Err(error);
    }
    Ok(TemplateData { locale: Some(locale.to_owned()), strings: strings.into_json() })
}

/// What templates are filled with from a file of strings; `None` where no file is given.
pub fn load_template_data(
    locale: Option<&str>,
    strings: Option<Json>,
    strings_path: &str,
) -> (result: Result<
    TemplateData,
    Error,
>)
    ensures
        match strings {
            Some(value) => if value@ is Object {
                result matches Ok(data) && data@ == (DataView {
                    locale: crate::text::given(locale),
                    strings: value@,
                })
            } else {
                result matches Err(error) && error@ == "template strings file "@ + strings_path@
                    + " must contain a JSON object"@
            },
            None => result matches Ok(data) && data@ == (DataView {
                locale: crate::text::given(locale),
                strings: JsonView::Object(Map::empty()),
            }),
        },
{
    let own = match locale {
        Some(name) => Some(name.to_owned()),
        None => None,
    };
    match strings {
        Some(Json::Object(map)) => Ok(TemplateData { locale: own, strings: Json::Object(map) }),
        Some(_) => Err(
            failure(
                crate::text::cat3(
                    "template strings file ",
                    strings_path,
                    " must contain a JSON object",
                ),
            ),
        ),
        None => Ok(TemplateData { locale: own, strings: Members::new().into_json() }),
    }
}

} // verus!
