//! Device frames.

use vstd::prelude::*;
use vstd::string::*;
use crate::media_render::pixels::Rect;
use crate::text::{
    cat, cat3, debug_form, debug_text, decimal, failure, find_chars, first_place, given, is_digit,
    lemma_decimal_value, lemma_first_place, occurs_at, parse_number, parsed_number, same,
    text_between, to_chars, Error,
};

verus! {

/// How an image is fitted into the screen of a frame.
#[derive(Debug, Clone, Copy, PartialEq, Eq, Structural)]
pub enum FrameFit {
    Cover,
    Contain,
    Fill,
}

impl FrameFit {
    /// The name of a fit.
    pub open spec fn name_of(self) -> Seq<char> {
        match self {
            FrameFit::Cover => "cover"@,
            FrameFit::Contain => "contain"@,
            FrameFit::Fill => "fill"@,
        }
    }

    /// The name of a fit.
    pub fn as_str(self) -> (name: &'static str)
        ensures
            name@ == self.name_of(),
    {
        match self {
            FrameFit::Cover => "cover",
            FrameFit::Contain => "contain",
            FrameFit::Fill => "fill",
        }
    }

    /// The fit with a name.
    pub open spec fn named(value: Seq<char>) -> Result<FrameFit, Seq<char>> {
        if value == "cover"@ {
            Ok(FrameFit::Cover)
        } else if value == "contain"@ {
            Ok(FrameFit::Contain)
        } else if value == "fill"@ {
            Ok(FrameFit::Fill)
        } else {
            Err(
                "unsupported asc-device-frame fit value "@ + debug_form(value)
                    + "; use cover, contain, or fill"@,
            )
        }
    }

    /// The fit with a name.
    pub fn parse(value: &str) -> (result: Result<FrameFit, Error>)
        ensures
            match FrameFit::named(value@) {
                Ok(fit) => result == Ok::<FrameFit, Error>(fit),
                Err(message) => result matches Err(error) && error@ == message,
            },
    {
        if same(value, "cover") {
            Ok(FrameFit::Cover)
        } else if same(value, "contain") {
            Ok(FrameFit::Contain)
        } else if same(value, "fill") {
            Ok(FrameFit::Fill)
        } else {
            Err(
                failure(
                    cat3(
                        "unsupported asc-device-frame fit value ",
                        debug_text(value).as_str(),
                        "; use cover, contain, or fill",
                    ),
                ),
            )
        }
    }
}

/// A fit is found by its name.
pub proof fn law_fits_by_name(fit: FrameFit)
    ensures
        FrameFit::named(fit.name_of()) == Ok::<FrameFit, Seq<char>>(fit),
{
    reveal_strlit("cover");
    reveal_strlit("contain");
    reveal_strlit("fill");
    assert("cover"@.len() == 5 && "contain"@.len() == 7 && "fill"@.len() == 4);
}

/// A size of what is rendered.
#[derive(Debug, Clone, Copy, PartialEq, Eq, Structural)]
pub struct Viewport {
    pub width: u32,
    pub height: u32,
}

/// The size that a name of the store stands for.
pub open spec fn store_size(size: Seq<char>) -> Option<Viewport> {
    if size == "iphone"@ || size == "iphone67"@ {
        Some(Viewport { width: 1320, height: 2868 })
    } else if size == "iphone65"@ {
        Some(Viewport { width: 1284, height: 2778 })
    } else if size == "iphone61"@ || size == "iphone58"@ {
        Some(Viewport { width: 1170, height: 2532 })
    } else if size == "iphone55"@ {
        Some(Viewport { width: 1242, height: 2208 })
    } else if size == "iphone47"@ {
        Some(Viewport { width: 750, height: 1334 })
    } else if size == "iphone40"@ {
        Some(Viewport { width: 640, height: 1136 })
    } else if size == "iphone35"@ {
        Some(Viewport { width: 640, height: 960 })
    } else if size == "ipad"@ || size == "ipad13"@ {
        Some(Viewport { width: 2064, height: 2752 })
    } else if size == "ipad129"@ {
        Some(Viewport { width: 2048, height: 2732 })
    } else if size == "ipad11"@ {
        Some(Viewport { width: 1668, height: 2420 })
    } else if size == "ipad105"@ {
        Some(Viewport { width: 1668, height: 2224 })
    } else if size == "ipad97"@ {
        Some(Viewport { width: 1536, height: 2048 })
    } else if size == "mac"@ {
        Some(Viewport { width: 2880, height: 1800 })
    } else if size == "apple_tv"@ {
        Some(Viewport { width: 3840, height: 2160 })
    } else if size == "vision_pro"@ {
        Some(Viewport { width: 3840, height: 2160 })
    } else if size == "watch"@ || size == "watch_series10"@ {
        Some(Viewport { width: 416, height: 496 })
    } else if size == "watch_ultra"@ {
        Some(Viewport { width: 422, height: 514 })
    } else if size == "watch_series7"@ {
        Some(Viewport { width: 396, height: 484 })
    } else if size == "watch_series4"@ {
        Some(Viewport { width: 368, height: 448 })
    } else if size == "watch_series3"@ {
        Some(Viewport { width: 312, height: 390 })
    } else {
        None
    }
}

/// The result is a size, or fails with a message.
pub open spec fn sized_as(
    result: Result<Viewport, Error>,
    expected: Result<Viewport, Seq<char>>,
) -> bool {
    match expected {
        Ok(viewport) => result == Ok::<Viewport, Error>(viewport),
        Err(message) => result matches Err(error) && error@ == message,
    }
}

/// The size that a name stands for.
pub open spec fn named_size(size: Seq<char>) -> Result<Viewport, Seq<char>> {
    match store_size(size) {
        Some(viewport) => Ok(viewport),
        None => Err(
            "unknown render size "@ + debug_form(size)
                + "; use --viewport WIDTHxHEIGHT for custom sizes"@,
        ),
    }
}

/// The size that a name stands for.
pub fn named_viewport(size: &str) -> (result: Result<Viewport, Error>)
    ensures
        sized_as(result, named_size(size@)),
{
    let viewport = if same(size, "iphone") || same(size, "iphone67") {
        Viewport { width: 1320, height: 2868 }
    } else if same(size, "iphone65") {
        Viewport { width: 1284, height: 2778 }
    } else if same(size, "iphone61") || same(size, "iphone58") {
        Viewport { width: 1170, height: 2532 }
    } else if same(size, "iphone55") {
        Viewport { width: 1242, height: 2208 }
    } else if same(size, "iphone47") {
        Viewport { width: 750, height: 1334 }
    } else if same(size, "iphone40") {
        Viewport { width: 640, height: 1136 }
    } else if same(size, "iphone35") {
        Viewport { width: 640, height: 960 }
    } else if same(size, "ipad") || same(size, "ipad13") {
        Viewport { width: 2064, height: 2752 }
    } else if same(size, "ipad129") {
        Viewport { width: 2048, height: 2732 }
    } else if same(size, "ipad11") {
        Viewport { width: 1668, height: 2420 }
    } else if same(size, "ipad105") {
        Viewport { width: 1668, height: 2224 }
    } else if same(size, "ipad97") {
        Viewport { width: 1536, height: 2048 }
    } else if same(size, "mac") {
        Viewport { width: 2880, height: 1800 }
    } else if same(size, "apple_tv") {
        Viewport { width: 3840, height: 2160 }
    } else if same(size, "vision_pro") {
        Viewport { width: 3840, height: 2160 }
    } else if same(size, "watch") || same(size, "watch_series10") {
        Viewport { width: 416, height: 496 }
    } else if same(size, "watch_ultra") {
        Viewport { width: 422, height: 514 }
    } else if same(size, "watch_series7") {
        Viewport { width: 396, height: 484 }
    } else if same(size, "watch_series4") {
        Viewport { width: 368, height: 448 }
    } else if same(size, "watch_series3") {
        Viewport { width: 312, height: 390 }
    } else {
        return Err(
            failure(
                cat3(
                    "unknown render size ",
                    debug_text(size).as_str(),
                    "; use --viewport WIDTHxHEIGHT for custom sizes",
                ),
            ),
        );
    };
    Ok(viewport)
}

/// The size that is written out as its width, an `x` and its height.
pub open spec fn written_size(value: Seq<char>) -> Result<Viewport, Seq<char>> {
    match first_place(value, seq!['x'], 0) {
        None => Err("viewport must use WIDTHxHEIGHT, got "@ + debug_form(value)),
        Some(i) => match parsed_number(value.subrange(0, i), u32::MAX as nat) {
            None => Err("invalid viewport width in "@ + debug_form(value)),
            Some(width) => match parsed_number(
                value.subrange(i + 1, value.len() as int),
                u32::MAX as nat,
            ) {
                None => Err("invalid viewport height in "@ + debug_form(value)),
                Some(height) => if width == 0 || height == 0 {
                    Err("viewport dimensions must be positive"@)
                } else {
                    Ok(Viewport { width: width as u32, height: height as u32 })
                },
            },
        },
    }
}

/// The size that is written out.
pub fn parse_viewport(value: &str) -> (result: Result<Viewport, Error>)
    ensures
        sized_as(result, written_size(value@)),
{
    let chars = to_chars(value);
    let mut sign: Vec<char> = Vec::new();
    sign.push('x');
    proof {
        assert(sign@ =~= seq!['x']);
    }
    let place: usize = match find_chars(&chars, &sign, 0) {
        Some(i) => i,
        None => {
            return Err(
                failure(cat("viewport must use WIDTHxHEIGHT, got ", debug_text(value).as_str())),
            );
        },
    };
    let width = match parse_number(text_between(&chars, 0, place).as_str(), u32::MAX as u64) {
        Some(n) => n as u32,
        None => {
            return Err(
                failure(cat("invalid viewport width in ", debug_text(value).as_str())),
            );
        },
    };
    let rest = text_between(&chars, place + 1, chars.len());
    let height = match parse_number(rest.as_str(), u32::MAX as u64) {
        Some(n) => n as u32,
        None => {
            return Err(
                failure(cat("invalid viewport height in ", debug_text(value).as_str())),
            );
        },
    };
    if width == 0 || height == 0 {
        return Err(failure("viewport dimensions must be positive".to_owned()));
    }
    Ok(Viewport { width, height })
}

/// The size that is asked for: by name, written out, or that of a large phone.
pub open spec fn asked_size(size: Option<Seq<char>>, viewport: Option<Seq<char>>) -> Result<
    Viewport,
    Seq<char>,
> {
    match (size, viewport) {
        (Some(name), None) => named_size(name),
        (None, Some(value)) => written_size(value),
        (None, None) => named_size("iphone67"@),
        (Some(_), Some(_)) => Err("use either --size or --viewport, not both"@),
    }
}

/// The size that is asked for.
pub fn resolve_viewport(size: Option<&str>, viewport: Option<&str>) -> (result: Result<
    Viewport,
    Error,
>)
    ensures
        sized_as(result, asked_size(given(size), given(viewport))),
{
    match (size, viewport) {
        (Some(name), None) => named_viewport(name),
        (None, Some(value)) => parse_viewport(value),
        (None, None) => named_viewport("iphone67"),
        (Some(_), Some(_)) => Err(failure("use either --size or --viewport, not both".to_owned())),
    }
}

/// A size that is written out is read back.
pub proof fn law_written_sizes_are_read(viewport: Viewport)
    requires
        viewport.width > 0,
        viewport.height > 0,
    ensures
        written_size(decimal(viewport.width as nat) + seq!['x'] + decimal(viewport.height as nat))
            == Ok::<Viewport, Seq<char>>(viewport),
{
    let w = decimal(viewport.width as nat);
    let h = decimal(viewport.height as nat);
    let s = w + seq!['x'] + h;
    lemma_decimal_value(viewport.width as nat);
    lemma_decimal_value(viewport.height as nat);
    lemma_first_place(s, seq!['x'], 0);
    assert(occurs_at(s, seq!['x'], w.len() as int)) by {
        assert(s.subrange(w.len() as int, w.len() as int + 1) =~= seq!['x']);
    }
    let i = first_place(s, seq!['x'], 0)->0;
    assert(i == w.len()) by {
        if i < w.len() {
            assert(occurs_at(s, seq!['x'], i));
            assert(s.subrange(i, i + 1)[0] == 'x');
            assert(s[i] == w[i]);
            assert(is_digit(w[i]));
        }
    }
    assert(s.subrange(0, i) =~= w);
    assert(s.subrange(i + 1, s.len() as int) =~= h);
    assert(is_digit(w[0]) && is_digit(h[0]));
}

/// A device frame.
#[derive(Debug)]
pub struct FrameSpec {
    pub name: String,
    pub image_path: String,
    pub image_size: Viewport,
    pub screen: Rect,
}

/// What is rendered into: a size, and a frame if there is one.
#[derive(Debug)]
pub struct RenderContext {
    pub viewport: Viewport,
    pub frame: Option<FrameSpec>,
}

} // verus!
