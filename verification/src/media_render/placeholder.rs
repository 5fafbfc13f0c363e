//! The places of a page at which a device frame is wanted.

use vstd::prelude::*;
use vstd::string::*;
use crate::markup::{html_escape, html_escaped};
use crate::media_render::frame::{FrameFit, FrameSpec};
use crate::media_render::template::gives;
use crate::text::{
    cat, cat3, decimal, decimal_text, ends, ends_with, failure, find_chars, first_place,
    is_white_space, lemma_first_place, lowered, starts, strip_end, strip_prefixes, strip_start,
    stripped_end, stripped_start, text_between, to_chars, to_lower, trim_end, trim_start,
    trimmed_end, trimmed_start, white_space, without_prefixes, Error,
};

verus! {

/// The value of an attribute of a tag, between its quotes.
pub open spec fn attribute(opening: Seq<char>, name: Seq<char>) -> Option<Seq<char>> {
    let pattern = lowered(name + "="@);
    match first_place(lowered(opening), pattern, 0) {
        None => None,
        Some(i) => {
            let start = i + pattern.len();
            if start >= opening.len() || (opening[start] != '"' && opening[start] != '\'') {
                None
            } else {
                match first_place(opening, seq![opening[start]], start + 1) {
                    Some(end) => Some(opening.subrange(start + 1, end)),
                    None => None,
                }
            }
        },
    }
}

fn one(c: char) -> (chars: Vec<char>)
    ensures
        chars@ == seq![c],
{
    let mut chars: Vec<char> = Vec::new();
    chars.push(c);
    proof {
        assert(chars@ =~= seq![c]);
    }
    chars
}

/// The value of an attribute of a tag, between its quotes.
pub fn extract_attr(opening: &str, name: &str) -> (value: Option<String>)
    ensures
        match attribute(opening@, name@) {
            Some(view) => value matches Some(found) && found@ == view,
            None => value is None,
        },
{
    let chars = to_chars(opening);
    let small = to_chars(to_lower(opening).as_str());
    let pattern = to_chars(to_lower(cat(name, "=").as_str()).as_str());
    match find_chars(&small, &pattern, 0) {
        None => None,
        Some(i) => {
            let start: usize = i + pattern.len();
            if start >= chars.len() || (chars[start] != '"' && chars[start] != '\'') {
                return None;
            }
            let quote = one(chars[start]);
            match find_chars(&chars, &quote, start + 1) {
                Some(end) => Some(text_between(&chars, start + 1, end)),
                None => None,
            }
        },
    }
}

/// The fit that a tag asks for.
pub open spec fn fit_of(opening: Seq<char>) -> Result<FrameFit, Seq<char>> {
    FrameFit::named(
        match attribute(opening, "fit"@) {
            Some(value) => value,
            None => match attribute(opening, "data-screen-fit"@) {
                Some(value) => value,
                None => "cover"@,
            },
        },
    )
}

/// The fit that a tag asks for.
pub fn frame_screen_fit(opening: &str) -> (result: Result<FrameFit, Error>)
    ensures
        match fit_of(opening@) {
            Ok(fit) => result == Ok::<FrameFit, Error>(fit),
            Err(message) => result matches Err(error) && error@ == message,
        },
{
    let value = match extract_attr(opening, "fit") {
        Some(found) => found,
        None => match extract_attr(opening, "data-screen-fit") {
            Some(found) => found,
            None => "cover".to_owned(),
        },
    };
    FrameFit::parse(value.as_str())
}

/// What stands in a tag behind its name, without the end of the tag.
pub open spec fn tag_rest(opening: Seq<char>) -> Seq<char> {
    trimmed_end(
        stripped_end(
            trimmed_end(
                stripped_end(
                    trimmed_end(
                        without_prefixes(
                            stripped_start(trimmed_start(opening), '<'),
                            "asc-device-frame"@,
                        ),
                    ),
                    '>',
                ),
            ),
            '/',
        ),
    )
}

/// The attributes of a tag, with the space before them; nothing where the tag has a longer name.
pub open spec fn attributes_of(opening: Seq<char>) -> Seq<char> {
    let rest = tag_rest(opening);
    if rest.len() > 0 && !is_white_space(rest[0]) {
        Seq::empty()
    } else {
        rest
    }
}

/// The attributes of a tag, with the space before them.
pub fn frame_placeholder_attrs(opening: &str) -> (attrs: String)
    ensures
        attrs@ == attributes_of(opening@),
{
    proof {
        reveal_strlit("asc-device-frame");
    }
    let named = strip_start(trim_start(opening).as_str(), '<');
    let bare = strip_prefixes(named.as_str(), "asc-device-frame");
    let closed = strip_end(trim_end(bare.as_str()).as_str(), '>');
    let rest = trim_end(strip_end(trim_end(closed.as_str()).as_str(), '/').as_str());
    let chars = to_chars(rest.as_str());
    if chars.len() > 0 && !white_space(chars[0]) {
        let empty = String::new();
        proof {
            assert(empty@ =~= Seq::<char>::empty());
        }
        return empty;
    }
    rest
}

/// What is put in the place of a tag: a frame with its attributes, and the image that fills it.
pub open spec fn frame_markup(attrs: Seq<char>, frame: FrameSpec, source: Seq<char>) -> Seq<char> {
    "<asc-device-frame"@ + attrs + " data-asc-rendered=\"true\" data-asc-frame=\""@ + html_escaped(
        frame.name@,
    ) + "\">\n  <img class=\"asc-device-frame__image\" src=\""@ + html_escaped(source)
        + "\" alt=\"\" style=\"aspect-ratio:"@ + decimal(frame.image_size.width as nat) + "/"@
        + decimal(frame.image_size.height as nat) + ";\">\n</asc-device-frame>"@
}

/// What is put in the place of a tag.
pub fn frame_placeholder_markup(attrs: &str, frame: &FrameSpec, source: &str) -> (markup: String)
    ensures
        markup@ == frame_markup(attrs@, *frame, source@),
{
    cat3(
        "<asc-device-frame",
        attrs,
        " data-asc-rendered=\"true\" data-asc-frame=\"",
    ).concat(html_escape(frame.name.as_str()).as_str()).concat(
        "\">\n  <img class=\"asc-device-frame__image\" src=\"",
    ).concat(html_escape(source).as_str()).concat("\" alt=\"\" style=\"aspect-ratio:").concat(
        decimal_text(frame.image_size.width as u64).as_str(),
    ).concat("/").concat(decimal_text(frame.image_size.height as u64).as_str()).concat(
        ";\">\n</asc-device-frame>",
    )
}

/// What the next tag of a page is.
pub enum TagView {
    /// There is none.
    Absent,
    /// It does not end.
    Unclosed,
    /// It asks for a fit that there is not.
    BadFit(Seq<char>),
    /// It asks for a fit, and its element does not end.
    Endless(FrameFit),
    /// It stands from one place to another, and its element ends at a third.
    Whole { start: int, end: int, fit: FrameFit, next: int },
}

/// The next tag of a page from a place on.
pub open spec fn next_tag(html: Seq<char>, from: int) -> TagView {
    match first_place(lowered(html), "<asc-device-frame"@, from) {
        None => TagView::Absent,
        Some(start) => match first_place(html, seq!['>'], start) {
            None => TagView::Unclosed,
            Some(last) => {
                let opening = html.subrange(start, last + 1);
                match fit_of(opening) {
                    Err(message) => TagView::BadFit(message),
                    Ok(fit) => if ends(opening, "/>"@) {
                        TagView::Whole { start, end: last + 1, fit, next: last + 1 }
                    } else {
                        match first_place(lowered(html), "</asc-device-frame>"@, last + 1) {
                            None => TagView::Endless(fit),
                            Some(closing) => TagView::Whole {
                                start,
                                end: last + 1,
                                fit,
                                next: closing + "</asc-device-frame>"@.len(),
                            },
                        }
                    },
                }
            },
        },
    }
}

/// The next tag of a page.
#[derive(Debug)]
pub enum Tag {
    Absent,
    Unclosed,
    BadFit(Error),
    Endless(FrameFit),
    Whole { start: usize, end: usize, fit: FrameFit, next: usize },
}

impl View for Tag {
    type V = TagView;

    open spec fn view(&self) -> TagView {
        match self {
            Tag::Absent => TagView::Absent,
            Tag::Unclosed => TagView::Unclosed,
            Tag::BadFit(error) => TagView::BadFit(error@),
            Tag::Endless(fit) => TagView::Endless(*fit),
            Tag::Whole { start, end, fit, next } => TagView::Whole {
                start: *start as int,
                end: *end as int,
                fit: *fit,
                next: *next as int,
            },
        }
    }
}

/// A tag that is whole lies behind the place from which it was looked for, and its element behind it.
pub proof fn lemma_next_tag(html: Seq<char>, from: int)
    requires
        0 <= from <= html.len(),
    ensures
        next_tag(html, from) matches TagView::Whole { start, end, next, .. } ==> from <= start < end
            && end <= next <= html.len(),
{
    reveal_strlit("<asc-device-frame");
    reveal_strlit("</asc-device-frame>");
    lemma_first_place(lowered(html), "<asc-device-frame"@, from);
    if let Some(start) = first_place(lowered(html), "<asc-device-frame"@, from) {
        lemma_first_place(html, seq!['>'], start);
        if let Some(last) = first_place(html, seq!['>'], start) {
            lemma_first_place(lowered(html), "</asc-device-frame>"@, last + 1);
        }
    }
}

fn find_tag(html: &str, chars: &Vec<char>, small: &Vec<char>, from: usize) -> (tag: Tag)
    requires
        chars@ == html@,
        small@ == lowered(html@),
        from <= chars@.len(),
    ensures
        tag@ == next_tag(html@, from as int),
        tag matches Tag::Whole { start, end, next, .. } ==> from <= start < end && end <= next
            && next <= chars@.len(),
{
    proof {
        lemma_next_tag(html@, from as int);
    }
    let opens = to_chars("<asc-device-frame");
    let closes = to_chars("</asc-device-frame>");
    let sign = one('>');
    let start: usize = match find_chars(small, &opens, from) {
        Some(i) => i,
        None => {
            return Tag::Absent;
        },
    };
    let last: usize = match find_chars(chars, &sign, start) {
        Some(i) => i,
        None => {
            return Tag::Unclosed;
        },
    };
    let opening = text_between(chars, start, last + 1);
    let fit = match frame_screen_fit(opening.as_str()) {
        Ok(found) => found,
        Err(error) => {
            return Tag::BadFit(error);
        },
    };
    if ends_with(opening.as_str(), "/>") {
        return Tag::Whole { start, end: last + 1, fit, next: last + 1 };
    }
    match find_chars(small, &closes, last + 1) {
        None => Tag::Endless(fit),
        Some(closing) => Tag::Whole { start, end: last + 1, fit, next: closing + closes.len() },
    }
}

/// The fits that the tags of a page ask for, in turn, up to the first tag that is wrong.
pub open spec fn wanted_fits(html: Seq<char>, from: int) -> Seq<FrameFit>
    decreases html.len() - from,
{
    if from < 0 || from > html.len() {
        seq![]
    } else {
        proof {
            lemma_next_tag(html, from);
        }
        match next_tag(html, from) {
            TagView::Endless(fit) => seq![fit],
            TagView::Whole { fit, next, .. } => seq![fit] + wanted_fits(html, next),
            _ => seq![],
        }
    }
}

/// The message of the first tag of a page that is wrong.
pub open spec fn tag_message(html: Seq<char>, from: int) -> Option<Seq<char>>
    decreases html.len() - from,
{
    if from < 0 || from > html.len() {
        None
    } else {
        proof {
            lemma_next_tag(html, from);
        }
        match next_tag(html, from) {
            TagView::Absent => None,
            TagView::Unclosed => Some("unclosed <asc-device-frame> tag"@),
            TagView::BadFit(message) => Some(message),
            TagView::Endless(_) => Some("missing </asc-device-frame> closing tag"@),
            TagView::Whole { next, .. } => tag_message(html, next),
        }
    }
}

/// The fits that the tags of a page ask for, and what is wrong with the tag behind them.
#[derive(Debug)]
pub struct FramePlan {
    pub fits: Vec<FrameFit>,
    pub error: Option<Error>,
}

/// The fits that the tags of a page ask for, and what is wrong with the tag behind them.
pub fn frame_placeholders(html: &str) -> (plan: FramePlan)
    ensures
        plan.fits@ == wanted_fits(html@, 0),
        match tag_message(html@, 0) {
            Some(message) => plan.error matches Some(error) && error@ == message,
            None => plan.error is None,
        },
{
    let chars = to_chars(html);
    let small = to_chars(to_lower(html).as_str());
    let mut fits: Vec<FrameFit> = Vec::new();
    let mut from: usize = 0;
    proof {
        assert(fits@ + wanted_fits(html@, 0) =~= wanted_fits(html@, 0));
    }
    loop
        invariant
            chars@ == html@,
            small@ == lowered(html@),
            from <= chars@.len(),
            fits@ + wanted_fits(html@, from as int) == wanted_fits(html@, 0),
            tag_message(html@, from as int) == tag_message(html@, 0),
        decreases chars@.len() - from,
    {
        match find_tag(html, &chars, &small, from) {
            Tag::Absent => {
                proof {
                    assert(fits@ + Seq::<FrameFit>::empty() =~= fits@);
                }
                return FramePlan { fits, error: None };
            },
            Tag::Unclosed => {
                proof {
                    assert(fits@ + Seq::<FrameFit>::empty() =~= fits@);
                }
                return FramePlan {
                    fits,
                    error: Some(failure("unclosed <asc-device-frame> tag".to_owned())),
                };
            },
            Tag::BadFit(error) => {
                proof {
                    assert(fits@ + Seq::<FrameFit>::empty() =~= fits@);
                }
                return FramePlan { fits, error: Some(error) };
            },
            Tag::Endless(fit) => {
                let ghost before = fits@;
                fits.push(fit);
                proof {
                    assert(before + seq![fit] =~= fits@);
                }
                return FramePlan {
                    fits,
                    error: Some(failure("missing </asc-device-frame> closing tag".to_owned())),
                };
            },
            Tag::Whole { start: _, end: _, fit, next } => {
                let ghost before = fits@;
                fits.push(fit);
                proof {
                    let rest = wanted_fits(html@, next as int);
                    assert(before + (seq![fit] + rest) =~= fits@ + rest);
                }
                from = next;
            },
        }
    }
}

/// A page from a place on, with a frame in the place of each tag; `k` tags stand before that place.
pub open spec fn framed_from(
    html: Seq<char>,
    frame: FrameSpec,
    sources: Seq<String>,
    k: int,
    from: int,
) -> Seq<char>
    decreases html.len() - from,
{
    if from < 0 || from > html.len() {
        seq![]
    } else {
        proof {
            lemma_next_tag(html, from);
        }
        match next_tag(html, from) {
            TagView::Whole { start, end, next, .. } => html.subrange(from, start) + frame_markup(
                attributes_of(html.subrange(start, end)),
                frame,
                sources[k]@,
            ) + framed_from(html, frame, sources, k + 1, next),
            _ => html.skip(from),
        }
    }
}

/// A page with a frame in the place of each tag, or what is wrong with it.
pub open spec fn framed_page(
    html: Seq<char>,
    frame: FrameSpec,
    template_path: Seq<char>,
    sources: Seq<String>,
) -> Result<Seq<char>, Seq<char>> {
    match tag_message(html, 0) {
        Some(message) => Err(message),
        None => if next_tag(html, 0) is Absent {
            Err(
                "template "@ + template_path
                    + " uses --frame but does not contain <asc-device-frame></asc-device-frame>"@,
            )
        } else {
            Ok(framed_from(html, frame, sources, 0, 0))
        },
    }
}

/// Puts a frame in the place of each tag of a page. The images that fill the frames are told in the
/// order of the tags.
pub fn replace_frame_placeholders(
    html: &str,
    frame: &FrameSpec,
    template_path: &str,
    sources: &Vec<String>,
) -> (result: Result<String, Error>)
    requires
        sources@.len() >= wanted_fits(html@, 0).len(),
    ensures
        gives(result, framed_page(html@, *frame, template_path@, sources@)),
{
    let chars = to_chars(html);
    let small = to_chars(to_lower(html).as_str());
    let mut out = String::new();
    let mut from: usize = 0;
    let total: usize = sources.len();
    let mut k: usize = 0;
    proof {
        assert(out@ + framed_from(html@, *frame, sources@, 0, 0) =~= framed_from(
            html@,
            *frame,
            sources@,
            0,
            0,
        ));
    }
    loop
        invariant
            chars@ == html@,
            small@ == lowered(html@),
            from <= chars@.len(),
            k + wanted_fits(html@, from as int).len() == wanted_fits(html@, 0).len(),
            wanted_fits(html@, 0).len() <= sources@.len() == total,
            k == 0 ==> from == 0,
            k > 0 ==> !(next_tag(html@, 0) is Absent),
            tag_message(html@, from as int) == tag_message(html@, 0),
            out@ + framed_from(html@, *frame, sources@, k as int, from as int) == framed_from(
                html@,
                *frame,
                sources@,
                0,
                0,
            ),
        decreases chars@.len() - from,
    {
        match find_tag(html, &chars, &small, from) {
            Tag::Absent => {
                if k == 0 {
                    return Err(
                        failure(
                            cat3(
                                "template ",
                                template_path,
                                " uses --frame but does not contain <asc-device-frame></asc-device-frame>",
                            ),
                        ),
                    );
                }
                proof {
                    assert(html@.skip(from as int) =~= html@.subrange(
                        from as int,
                        html@.len() as int,
                    ));
                }
                return Ok(cat(out.as_str(), text_between(&chars, from, chars.len()).as_str()));
            },
            Tag::Unclosed => {
                return Err(failure("unclosed <asc-device-frame> tag".to_owned()));
            },
            Tag::BadFit(error) => {
                return Err(error);
            },
            Tag::Endless(_) => {
                return Err(failure("missing </asc-device-frame> closing tag".to_owned()));
            },
            Tag::Whole { start, end, fit: _, next } => {
                let ghost before = out@;
                let opening = text_between(&chars, start, end);
                let attrs = frame_placeholder_attrs(opening.as_str());
                let markup = frame_placeholder_markup(attrs.as_str(), frame, sources[k].as_str());
                out = out.concat(text_between(&chars, from, start).as_str()).concat(
                    markup.as_str(),
                );
                proof {
                    let a = html@.subrange(from as int, start as int);
                    let rest = framed_from(html@, *frame, sources@, k + 1, next as int);
                    assert(before + (a + markup@ + rest) =~= before + a + markup@ + rest);
                }
                from = next;
                k += 1;
            },
        }
    }
}

/// A tag that is whole starts a frame in any case, ends with its angle bracket, and its element goes on
/// to its closing tag unless the tag closes itself.
pub proof fn law_whole_tags(html: Seq<char>, from: int)
    requires
        0 <= from <= html.len(),
    ensures
        next_tag(html, from) matches TagView::Whole { start, end, fit, next } ==> {
            let opening = html.subrange(start, end);
            &&& from <= start < end <= next <= html.len()
            &&& starts(lowered(html.skip(start)), "<asc-device-frame"@)
            &&& opening.last() == '>'
            &&& fit_of(opening) == Ok::<FrameFit, Seq<char>>(fit)
            &&& ends(opening, "/>"@) ==> next == end
            &&& !ends(opening, "/>"@) ==> ends(
                lowered(html.subrange(end, next)),
                "</asc-device-frame>"@,
            )
        },
{
    lemma_next_tag(html, from);
    reveal_strlit("<asc-device-frame");
    reveal_strlit("</asc-device-frame>");
    lemma_first_place(lowered(html), "<asc-device-frame"@, from);
    if let TagView::Whole { start, end, fit, next } = next_tag(html, from) {
        lemma_first_place(html, seq!['>'], start);
        let last = end - 1;
        assert(html.subrange(last, last + 1)[0] == '>');
        assert(html[last] == '>');
        let n = "<asc-device-frame"@.len() as int;
        assert(lowered(html.skip(start)).take(n) =~= lowered(html).subrange(start, start + n));
        if !ends(html.subrange(start, end), "/>"@) {
            lemma_first_place(lowered(html), "</asc-device-frame>"@, end);
            let m = "</asc-device-frame>"@.len() as int;
            let closing = next - m;
            assert(lowered(html.subrange(end, next)).skip(next - end - m) =~= lowered(
                html,
            ).subrange(closing, closing + m));
        }
    }
}

/// In a page with one frame the element gives way to the framed screen, with the attributes of the
/// element and its own source, and the page around it stays; the fit that is asked for is that of the
/// tag.
pub proof fn law_one_frame_is_filled(
    html: Seq<char>,
    frame: FrameSpec,
    template_path: Seq<char>,
    sources: Seq<String>,
    start: int,
    end: int,
    fit: FrameFit,
    next: int,
)
    requires
        next_tag(html, 0) == (TagView::Whole { start, end, fit, next }),
        next_tag(html, next) is Absent,
    ensures
        framed_page(html, frame, template_path, sources) == Ok::<Seq<char>, Seq<char>>(
            html.subrange(0, start) + frame_markup(
                attributes_of(html.subrange(start, end)),
                frame,
                sources[0]@,
            ) + html.skip(next),
        ),
        wanted_fits(html, 0) == seq![fit],
{
    lemma_next_tag(html, 0);
    assert(framed_from(html, frame, sources, 1, next) == html.skip(next));
    assert(tag_message(html, next) is None);
    assert(tag_message(html, 0) is None);
    assert(wanted_fits(html, next) == Seq::<FrameFit>::empty());
    assert(seq![fit] + Seq::<FrameFit>::empty() =~= seq![fit]);
}

/// A page without a frame, with one that does not end or with one that asks for a fit that there is
/// not is refused.
pub proof fn law_pages_need_whole_frames(
    html: Seq<char>,
    frame: FrameSpec,
    template_path: Seq<char>,
    sources: Seq<String>,
)
    ensures
        !(next_tag(html, 0) is Whole) ==> framed_page(html, frame, template_path, sources) is Err,
        next_tag(html, 0) is Absent <==> first_place(lowered(html), "<asc-device-frame"@, 0) is None,
{
}

} // verus!
