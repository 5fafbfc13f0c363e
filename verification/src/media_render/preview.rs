//! The pages of the preview server.

use vstd::prelude::*;
use vstd::string::*;
use crate::markup::{html_escape, html_escaped};
use crate::media_render::frame::{FrameFit, Viewport};
use crate::media_render::percent::{percent_decode, percent_decoded, template_address, template_url};
use crate::media_render::template::{gives, TemplateInstance};
use crate::paths::{extension_of, join_path, path_extension, under};
use crate::text::{
    cat, cat3, debug_form, debug_text, decimal, decimal_text, failure, fails_as, due_if, find_chars,
    first_place, is_white_space, lowered, parse_number, parsed_number, pieces, same, split, starts,
    starts_with, text_between, texts, to_chars, to_lower, trim_start, trimmed_start, white_space,
    Error,
};

verus! {

/// What stands before the first place of a character; everything where there is none.
pub open spec fn before(s: Seq<char>, c: char) -> Seq<char> {
    match first_place(s, seq![c], 0) {
        Some(i) => s.subrange(0, i),
        None => s,
    }
}

fn text_before(s: &str, c: char) -> (result: String)
    ensures
        result@ == before(s@, c),
{
    let chars = to_chars(s);
    let mut sign: Vec<char> = Vec::new();
    sign.push(c);
    proof {
        assert(sign@ =~= seq![c]);
    }
    match find_chars(&chars, &sign, 0) {
        Some(i) => text_between(&chars, 0, i),
        None => s.to_owned(),
    }
}

/// The characters of a text up to its first white space.
pub open spec fn leading_word(s: Seq<char>) -> Seq<char>
    decreases s.len(),
{
    if s.len() == 0 || is_white_space(s[0]) {
        seq![]
    } else {
        seq![s[0]] + leading_word(s.drop_first())
    }
}

/// The first word of a text.
pub open spec fn first_word(s: Seq<char>) -> Seq<char> {
    leading_word(trimmed_start(s))
}

/// What stands behind the first word of a text.
pub open spec fn behind_word(s: Seq<char>) -> Seq<char> {
    trimmed_start(s).skip(first_word(s).len() as int)
}

proof fn lemma_leading_word(s: Seq<char>, n: int)
    requires
        0 <= n <= s.len(),
        forall|i: int| 0 <= i < n ==> !is_white_space(#[trigger] s[i]),
        n < s.len() ==> is_white_space(s[n]),
    ensures
        leading_word(s) == s.subrange(0, n),
    decreases s.len(),
{
    if n == 0 {
        assert(s.subrange(0, 0) =~= seq![]);
    } else {
        let rest = s.drop_first();
        assert forall|i: int| 0 <= i < n - 1 implies !is_white_space(#[trigger] rest[i]) by {
            assert(rest[i] == s[i + 1]);
        }
        lemma_leading_word(rest, n - 1);
        assert(seq![s[0]] + rest.subrange(0, n - 1) =~= s.subrange(0, n));
    }
}

/// The first word of a text, and what stands behind it.
fn cut_word(s: &str) -> (cut: (String, String))
    ensures
        cut.0@ == first_word(s@),
        cut.1@ == behind_word(s@),
{
    let trimmed_text = trim_start(s);
    let chars = to_chars(trimmed_text.as_str());
    let mut n: usize = 0;
    while n < chars.len() && !white_space(chars[n])
        invariant
            n <= chars.len(),
            forall|i: int| 0 <= i < n ==> !is_white_space(#[trigger] chars@[i]),
        decreases chars.len() - n,
    {
        n += 1;
    }
    proof {
        lemma_leading_word(chars@, n as int);
        assert(chars@.skip(n as int) =~= chars@.subrange(n as int, chars@.len() as int));
    }
    (text_between(&chars, 0, n), text_between(&chars, n, chars.len()))
}

/// The path that a request asks for, without its query.
pub open spec fn requested(request: Seq<char>) -> Result<Seq<char>, Seq<char>> {
    let line = before(request, '\n');
    let method = first_word(line);
    let path = first_word(behind_word(line));
    if request.len() == 0 {
        Err("empty request"@)
    } else if method != "GET"@ && method != "HEAD"@ {
        Err("unsupported method "@ + method)
    } else if path.len() == 0 {
        Err("request path is missing"@)
    } else {
        Ok(before(path, '?'))
    }
}

/// The path that a request asks for, without its query.
pub fn parse_request_path(request: &str) -> (result: Result<String, Error>)
    ensures
        gives(result, requested(request@)),
{
    if request.unicode_len() == 0 {
        return Err(failure("empty request".to_owned()));
    }
    let line = text_before(request, '\n');
    let (method, rest) = cut_word(line.as_str());
    if !same(method.as_str(), "GET") && !same(method.as_str(), "HEAD") {
        return Err(failure(cat("unsupported method ", method.as_str())));
    }
    let (path, _rest) = cut_word(rest.as_str());
    if path.as_str().unicode_len() == 0 {
        return Err(failure("request path is missing".to_owned()));
    }
    Ok(text_before(path.as_str(), '?'))
}

/// The index that a text writes.
pub open spec fn index_of_text(value: Seq<char>) -> Result<nat, Seq<char>> {
    match parsed_number(value, usize::MAX as nat) {
        Some(n) => Ok(n),
        None => Err("invalid preview index "@ + debug_form(value)),
    }
}

/// The index that a text writes.
pub fn parse_index(value: &str) -> (result: Result<usize, Error>)
    ensures
        match index_of_text(value@) {
            Ok(n) => result matches Ok(index) && index == n,
            Err(message) => result matches Err(error) && error@ == message,
        },
{
    match parse_number(value, usize::MAX as u64) {
        Some(n) => Ok(n as usize),
        None => Err(failure(cat("invalid preview index ", debug_text(value).as_str()))),
    }
}

/// What is shown for a path.
#[derive(Debug)]
pub enum PreviewRoute {
    Dashboard,
    Template(usize),
    Framed(usize, FrameFit),
    Screen(usize),
    Asset(usize, String),
    NotFound,
}

/// What is shown for a path.
pub enum RouteView {
    Dashboard,
    Template(nat),
    Framed(nat, FrameFit),
    Screen(nat),
    Asset(nat, Seq<char>),
    NotFound,
}

impl View for PreviewRoute {
    type V = RouteView;

    open spec fn view(&self) -> RouteView {
        match self {
            PreviewRoute::Dashboard => RouteView::Dashboard,
            PreviewRoute::Template(i) => RouteView::Template(*i as nat),
            PreviewRoute::Framed(i, fit) => RouteView::Framed(*i as nat, *fit),
            PreviewRoute::Screen(i) => RouteView::Screen(*i as nat),
            PreviewRoute::Asset(i, path) => RouteView::Asset(*i as nat, path@),
            PreviewRoute::NotFound => RouteView::NotFound,
        }
    }
}

/// The index of one of the templates, by its text.
pub open spec fn template_index(value: Seq<char>, count: nat) -> Result<nat, Seq<char>> {
    match index_of_text(value) {
        Err(message) => Err(message),
        Ok(n) => if n < count {
            Ok(n)
        } else {
            Err("template index "@ + decimal(n) + " not found"@)
        },
    }
}

/// The message of a template without an image.
pub open spec fn no_screen(index: nat) -> Seq<char> {
    "template index "@ + decimal(index) + " has no screen image"@
}

/// What stands behind a prefix.
pub open spec fn behind(path: Seq<char>, prefix: Seq<char>) -> Seq<char> {
    path.skip(prefix.len() as int)
}

/// What a template's frame is shown with, by what stands behind `/framed/`.
pub open spec fn framed_route(
    rest: Seq<char>,
    instances: Seq<TemplateInstance>,
    has_frame: bool,
) -> Result<RouteView, Seq<char>> {
    match first_place(rest, seq!['/'], 0) {
        None => Err("invalid framed asset path"@),
        Some(i) => match index_of_text(rest.subrange(0, i)) {
            Err(message) => Err(message),
            Ok(_) => match FrameFit::named(rest.subrange(i + 1, rest.len() as int)) {
                Err(message) => Err(message),
                Ok(fit) => match template_index(rest.subrange(0, i), instances.len()) {
                    Err(message) => Err(message),
                    Ok(index) => if !has_frame {
                        Err("preview frame is not configured"@)
                    } else if instances[index as int].screen is None {
                        Err(no_screen(index))
                    } else {
                        Ok(RouteView::Framed(index, fit))
                    },
                },
            },
        },
    }
}

/// What is shown for a path.
pub open spec fn routed(
    path: Seq<char>,
    instances: Seq<TemplateInstance>,
    has_frame: bool,
) -> Result<
    RouteView,
    Seq<char>,
> {
    if path == "/"@ {
        Ok(RouteView::Dashboard)
    } else if starts(path, "/template/"@) {
        match template_index(behind(path, "/template/"@), instances.len()) {
            Ok(index) => Ok(RouteView::Template(index)),
            Err(message) => Err(message),
        }
    } else if starts(path, "/framed/"@) {
        framed_route(behind(path, "/framed/"@), instances, has_frame)
    } else if starts(path, "/screen/"@) {
        match template_index(behind(path, "/screen/"@), instances.len()) {
            Ok(index) => if instances[index as int].screen is None {
                Err(no_screen(index))
            } else {
                Ok(RouteView::Screen(index))
            },
            Err(message) => Err(message),
        }
    } else if starts(path, "/assets/"@) {
        let rest = behind(path, "/assets/"@);
        match first_place(rest, seq!['/'], 0) {
            None => Err("invalid asset path"@),
            Some(i) => match template_index(rest.subrange(0, i), instances.len()) {
                Ok(index) => Ok(RouteView::Asset(index, rest.subrange(i + 1, rest.len() as int))),
                Err(message) => Err(message),
            },
        }
    } else {
        Ok(RouteView::NotFound)
    }
}

fn find_template(value: &str, count: usize) -> (result: Result<usize, Error>)
    ensures
        match template_index(value@, count as nat) {
            Ok(n) => result matches Ok(index) && index == n && index < count,
            Err(message) => result matches Err(error) && error@ == message,
        },
{
    match parse_index(value) {
        Err(error) => Err(error),
        Ok(index) => if index < count {
            Ok(index)
        } else {
            Err(
                failure(
                    cat3("template index ", decimal_text(index as u64).as_str(), " not found"),
                ),
            )
        },
    }
}

fn screenless(index: usize) -> (error: Error)
    ensures
        error@ == no_screen(index as nat),
{
    failure(cat3("template index ", decimal_text(index as u64).as_str(), " has no screen image"))
}

fn text_behind(path: &str, prefix: &str) -> (rest: String)
    requires
        starts(path@, prefix@),
    ensures
        rest@ == behind(path@, prefix@),
{
    let chars = to_chars(path);
    let n: usize = prefix.unicode_len();
    proof {
        assert(path@.skip(n as int) =~= path@.subrange(n as int, path@.len() as int));
    }
    text_between(&chars, n, chars.len())
}

/// A text around the first place of a character.
struct Halves {
    left: String,
    right: String,
}

fn halve(s: &str, c: char) -> (halves: Option<Halves>)
    ensures
        match first_place(s@, seq![c], 0) {
            None => halves is None,
            Some(i) => halves matches Some(h) && h.left@ == s@.subrange(0, i) && h.right@
                == s@.subrange(i + 1, s@.len() as int),
        },
{
    let chars = to_chars(s);
    let mut sign: Vec<char> = Vec::new();
    sign.push(c);
    proof {
        assert(sign@ =~= seq![c]);
    }
    match find_chars(&chars, &sign, 0) {
        None => None,
        Some(i) => Some(
            Halves {
                left: text_between(&chars, 0, i),
                right: text_between(&chars, i + 1, chars.len()),
            },
        ),
    }
}

/// The result is what is shown, or fails with a message.
pub open spec fn shows(
    result: Result<PreviewRoute, Error>,
    expected: Result<RouteView, Seq<char>>,
) -> bool {
    match expected {
        Ok(view) => result matches Ok(route) && route@ == view,
        Err(message) => result matches Err(error) && error@ == message,
    }
}

fn framed_asset_route(
    rest: &str,
    instances: &Vec<TemplateInstance>,
    has_frame: bool,
) -> (result: Result<
    PreviewRoute,
    Error,
>)
    ensures
        shows(result, framed_route(rest@, instances@, has_frame)),
{
    let halves = match halve(rest, '/') {
        Some(found) => found,
        None => {
            return Err(failure("invalid framed asset path".to_owned()));
        },
    };
    if let Err(error) = parse_index(halves.left.as_str()) {
        return Err(error);
    }
    let fit = match FrameFit::parse(halves.right.as_str()) {
        Ok(found) => found,
        Err(error) => {
            return Err(error);
        },
    };
    match find_template(halves.left.as_str(), instances.len()) {
        Err(error) => Err(error),
        Ok(index) => if !has_frame {
            Err(failure("preview frame is not configured".to_owned()))
        } else if instances[index].screen.is_none() {
            Err(screenless(index))
        } else {
            Ok(PreviewRoute::Framed(index, fit))
        },
    }
}

/// What is shown for a path.
pub fn preview_route(
    path: &str,
    instances: &Vec<TemplateInstance>,
    has_frame: bool,
) -> (result: Result<
    PreviewRoute,
    Error,
>)
    ensures
        shows(result, routed(path@, instances@, has_frame)),
{
    if same(path, "/") {
        return Ok(PreviewRoute::Dashboard);
    }
    if starts_with(path, "/template/") {
        let rest = text_behind(path, "/template/");
        return match find_template(rest.as_str(), instances.len()) {
            Ok(index) => Ok(PreviewRoute::Template(index)),
            Err(error) => Err(error),
        };
    }
    if starts_with(path, "/framed/") {
        let rest = text_behind(path, "/framed/");
        return framed_asset_route(rest.as_str(), instances, has_frame);
    }
    if starts_with(path, "/screen/") {
        let rest = text_behind(path, "/screen/");
        return match find_template(rest.as_str(), instances.len()) {
            Ok(index) => if instances[index].screen.is_none() {
                Err(screenless(index))
            } else {
                Ok(PreviewRoute::Screen(index))
            },
            Err(error) => Err(error),
        };
    }
    if starts_with(path, "/assets/") {
        let rest = text_behind(path, "/assets/");
        return match halve(rest.as_str(), '/') {
            None => Err(failure("invalid asset path".to_owned())),
            Some(halves) => match find_template(halves.left.as_str(), instances.len()) {
                Ok(index) => Ok(PreviewRoute::Asset(index, halves.right)),
                Err(error) => Err(error),
            },
        };
    }
    Ok(PreviewRoute::NotFound)
}

/// The path that the steps of a request lead to from a directory.
pub open spec fn walked(root: Seq<char>, steps: Seq<Seq<char>>, i: int) -> Result<
    Seq<char>,
    Seq<char>,
>
    decreases steps.len() - i,
{
    if i < 0 || i >= steps.len() {
        Ok(root)
    } else if steps[i].len() == 0 || steps[i] == "."@ {
        walked(root, steps, i + 1)
    } else if steps[i] == ".."@ {
        Err("asset path cannot escape template directory"@)
    } else {
        match percent_decoded(steps[i]) {
            Err(message) => Err(message),
            Ok(name) => walked(under(root, name), steps, i + 1),
        }
    }
}

/// The path that a request leads to from a directory.
pub fn safe_join(root: &str, request_path: &str) -> (result: Result<String, Error>)
    ensures
        gives(result, walked(root@, pieces(request_path@, '/'), 0)),
{
    let steps = split(request_path, '/');
    let ghost names = pieces(request_path@, '/');
    let mut path = root.to_owned();
    let mut i: usize = 0;
    while i < steps.len()
        invariant
            i <= steps.len(),
            texts(steps@) == names,
            names == pieces(request_path@, '/'),
            walked(root@, names, 0) == walked(path@, names, i as int),
        decreases steps.len() - i,
    {
        let step = steps[i].as_str();
        proof {
            assert(texts(steps@)[i as int] == step@);
        }
        if step.unicode_len() == 0 || same(step, ".") {
            i += 1;
            continue;
        }
        if same(step, "..") {
            return Err(failure("asset path cannot escape template directory".to_owned()));
        }
        match percent_decode(step) {
            Ok(name) => {
                path = join_path(path.as_str(), name.as_str());
            },
            Err(error) => {
                return Err(error);
            },
        }
        i += 1;
    }
    proof {
        assert(texts(steps@).len() == steps.len());
    }
    Ok(path)
}

/// A path that leads to a directory or below it. Both are absolute, without links, dots or a slash
/// at their end.
pub open spec fn lies_in(root: Seq<char>, path: Seq<char>) -> bool {
    path == root || root == "/"@ || starts(path, root + "/"@)
}

/// Checks that a path leads to a directory or below it.
pub fn check_inside(root: &str, path: &str) -> (result: Result<(), Error>)
    ensures
        fails_as(
            result,
            due_if(!lies_in(root@, path@), "asset path cannot escape template directory"@),
        ),
{
    if same(path, root) || same(root, "/") || starts_with(path, cat(root, "/").as_str()) {
        Ok(())
    } else {
        Err(failure("asset path cannot escape template directory".to_owned()))
    }
}

/// The card of a template.
pub open spec fn card(instance: TemplateInstance, index: nat, viewport: Viewport) -> Seq<char> {
    "<article class=\"card\">\n  <header>"@ + html_escaped(instance.template.id@)
        + "</header>\n  <iframe style=\"width:"@ + decimal(viewport.width as nat)
        + "px;height:"@ + decimal(viewport.height as nat) + "px\" src=\""@ + html_escaped(
        template_address(
            "/template/"@ + decimal(index),
            instance.template.id@,
            viewport.width,
            viewport.height,
        ),
    ) + "\"></iframe>\n</article>"@
}

/// The cards of the first `n` templates.
pub open spec fn cards(instances: Seq<TemplateInstance>, viewport: Viewport, n: nat) -> Seq<char>
    decreases n,
{
    if n == 0 || n > instances.len() {
        seq![]
    } else {
        cards(instances, viewport, (n - 1) as nat) + card(
            instances[n - 1],
            (n - 1) as nat,
            viewport,
        )
    }
}

/// The page with all templates up to the width of their cards.
pub const DASHBOARD_HEAD: &'static str = "<!doctype html>\n<html>\n<head>\n  <meta charset=\"utf-8\">\n  <meta name=\"viewport\" content=\"width=device-width, initial-scale=1\">\n  <title>asc-sync media preview</title>\n  <style>\n    body { margin: 0; background: #151515; color: #f3f0e8; font: 15px/1.4 ui-sans-serif, system-ui; }\n    main { display: grid; grid-template-columns: repeat(auto-fit, minmax(320px, 1fr)); gap: 24px; padding: 24px; }\n    .card { background: #222; border: 1px solid #393939; border-radius: 18px; padding: 14px; overflow: auto; }\n    header { margin: 0 0 12px; color: #c8b88a; font-weight: 700; }\n    iframe { border: 0; background: white; transform: scale(var(--scale)); transform-origin: top left; }\n    .card { --scale: min(1, calc((100vw - 80px) / ";

/// The page with all templates from the width of their cards to the cards.
pub const DASHBOARD_MAIN: &'static str = ")); }\n  </style>\n</head>\n<body>\n  <main>";

/// The rest of the page with all templates.
pub const DASHBOARD_TAIL: &'static str = "</main>\n</body>\n</html>";

/// The page with all templates.
pub fn dashboard(instances: &Vec<TemplateInstance>, viewport: Viewport) -> (page: String)
    ensures
        page@ == DASHBOARD_HEAD@ + decimal(viewport.width as nat) + DASHBOARD_MAIN@ + cards(
            instances@,
            viewport,
            instances@.len(),
        ) + DASHBOARD_TAIL@,
{
    let mut all = String::new();
    let mut i: usize = 0;
    proof {
        assert(all@ =~= seq![]);
    }
    while i < instances.len()
        invariant
            i <= instances.len(),
            all@ == cards(instances@, viewport, i as nat),
        decreases instances.len() - i,
    {
        let id = instances[i].template.id.as_str();
        let base = cat("/template/", decimal_text(i as u64).as_str());
        let source = template_url(base.as_str(), id, viewport.width, viewport.height);
        let one_card = cat3(
            "<article class=\"card\">\n  <header>",
            html_escape(id).as_str(),
            "</header>\n  <iframe style=\"width:",
        ).concat(decimal_text(viewport.width as u64).as_str()).concat("px;height:").concat(
            decimal_text(viewport.height as u64).as_str(),
        ).concat("px\" src=\"").concat(html_escape(source.as_str()).as_str()).concat(
            "\"></iframe>\n</article>",
        );
        all = all.concat(one_card.as_str());
        i += 1;
    }
    cat3(
        DASHBOARD_HEAD,
        decimal_text(viewport.width as u64).as_str(),
        DASHBOARD_MAIN,
    ).concat(all.as_str()).concat(DASHBOARD_TAIL)
}

/// The extension of a path in small letters.
pub open spec fn small_extension(path: Seq<char>) -> Option<Seq<char>> {
    match extension_of(path) {
        Some(extension) => Some(lowered(extension)),
        None => None,
    }
}

/// The extension of a path in small letters.
pub fn lower_extension(path: &str) -> (extension: Option<String>)
    ensures
        crate::text::owned(extension) == small_extension(path@),
{
    match path_extension(path) {
        Some(extension) => Some(to_lower(extension.as_str())),
        None => None,
    }
}

/// The media type of a file by its extension.
pub open spec fn media_type(path: Seq<char>) -> Seq<char> {
    match small_extension(path) {
        None => "application/octet-stream"@,
        Some(extension) => if extension == "css"@ {
            "text/css; charset=utf-8"@
        } else if extension == "js"@ {
            "application/javascript; charset=utf-8"@
        } else if extension == "png"@ {
            "image/png"@
        } else if extension == "jpg"@ || extension == "jpeg"@ {
            "image/jpeg"@
        } else if extension == "svg"@ {
            "image/svg+xml"@
        } else if extension == "webp"@ {
            "image/webp"@
        } else if extension == "woff"@ {
            "font/woff"@
        } else if extension == "woff2"@ {
            "font/woff2"@
        } else {
            "application/octet-stream"@
        },
    }
}

/// The media type of a file by its extension.
pub fn content_type(path: &str) -> (result: &'static str)
    ensures
        result@ == media_type(path@),
{
    match lower_extension(path) {
        None => "application/octet-stream",
        Some(found) => {
            let extension = found.as_str();
            if same(extension, "css") {
                "text/css; charset=utf-8"
            } else if same(extension, "js") {
                "application/javascript; charset=utf-8"
            } else if same(extension, "png") {
                "image/png"
            } else if same(extension, "jpg") || same(extension, "jpeg") {
                "image/jpeg"
            } else if same(extension, "svg") {
                "image/svg+xml"
            } else if same(extension, "webp") {
                "image/webp"
            } else if same(extension, "woff") {
                "font/woff"
            } else if same(extension, "woff2") {
                "font/woff2"
            } else {
                "application/octet-stream"
            }
        },
    }
}

/// The words of a status.
pub open spec fn status_words(status: u16) -> Seq<char> {
    if status == 404 {
        "Not Found"@
    } else if status == 500 {
        "Internal Server Error"@
    } else {
        "OK"@
    }
}

/// The head of an answer.
pub fn response_head(status: u16, content_type: &str, length: usize) -> (head: String)
    ensures
        head@ == "HTTP/1.1 "@ + decimal(status as nat) + " "@ + status_words(status)
            + "\r\nContent-Type: "@ + content_type@ + "\r\nContent-Length: "@ + decimal(
            length as nat,
        ) + "\r\nConnection: close\r\n\r\n"@,
{
    let reason = if status == 404 {
        "Not Found"
    } else if status == 500 {
        "Internal Server Error"
    } else {
        "OK"
    };
    cat3("HTTP/1.1 ", decimal_text(status as u64).as_str(), " ").concat(reason).concat(
        "\r\nContent-Type: ",
    ).concat(content_type).concat("\r\nContent-Length: ").concat(
        decimal_text(length as u64).as_str(),
    ).concat("\r\nConnection: close\r\n\r\n")
}

} // verus!
