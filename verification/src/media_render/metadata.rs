//! What is known of the screens of device frames.

use vstd::prelude::*;
use vstd::string::*;
use crate::json::Json;
use crate::media_render::frame::Viewport;
use crate::media_render::pixels::Rect;
use crate::ordered::OrderedMap;
use crate::text::{
    all_digits, cat3, debug_form, debug_text, digits_value, failure, parse_number, parsed_number,
    same, starts_with, starts, Error,
};

verus! {

/// The object has the name.
pub open spec fn named(object: OrderedMap<Json>, name: Seq<char>) -> bool {
    &&& object@.contains_key("name"@)
    &&& object@["name"@] matches Json::Text(text)
    &&& text@ == name
}

/// The first object with a name: a value itself, else the first below it. Arrays are not searched.
pub open spec fn metadata_of(value: Json, name: Seq<char>) -> Option<OrderedMap<Json>>
    decreases value, 0nat,
{
    match value {
        Json::Object(object) => if named(object, name) {
            Some(object)
        } else {
            metadata_below(object, name, object.entries().len())
        },
        _ => None,
    }
}

/// The first object with a name below the last `n` members of an object.
pub open spec fn metadata_below(object: OrderedMap<Json>, name: Seq<char>, n: nat) -> Option<
    OrderedMap<Json>,
>
    decreases object, n,
{
    let all = object.entries().len();
    if n == 0 || n > all {
        None
    } else {
        proof {
            object.lemma_entry_decreases(all - n);
        }
        match metadata_of(object.entries()[all - n].1, name) {
            Some(found) => Some(found),
            None => metadata_below(object, name, (n - 1) as nat),
        }
    }
}

/// What is known of a frame.
pub fn find_frame_metadata<'a>(value: &'a Json, name: &str) -> (found: Option<&'a OrderedMap<Json>>)
    ensures
        match metadata_of(*value, name@) {
            Some(object) => found matches Some(entry) && *entry == object,
            None => found is None,
        },
    decreases value,
{
    match value {
        Json::Object(object) => {
            if let Some(Json::Text(text)) = object.get("name") {
                if same(text.as_str(), name) {
                    return Some(object);
                }
            }
            let n: usize = object.len();
            let mut i: usize = 0;
            while i < n
                invariant
                    value matches Json::Object(own) && own == object,
                    n == object.entries().len(),
                    i <= n,
                    metadata_below(*object, name@, n as nat) == metadata_below(
                        *object,
                        name@,
                        (n - i) as nat,
                    ),
                    !named(*object, name@),
                decreases n - i,
            {
                proof {
                    object.lemma_entry_decreases(i as int);
                }
                if let Some(found) = find_frame_metadata(object.value_at(i), name) {
                    return Some(found);
                }
                i += 1;
            }
            None
        },
        _ => None,
    }
}

/// The number of a JSON value that is written without a sign, a point or an exponent.
pub open spec fn plain_number(text: Seq<char>) -> Option<nat> {
    if all_digits(text) && digits_value(text) <= u32::MAX {
        Some(digits_value(text))
    } else {
        None
    }
}

/// The message of a field that is no number.
pub open spec fn no_number(key: Seq<char>) -> Seq<char> {
    "metadata field "@ + debug_form(key) + " must be a u32"@
}

/// The number of a field.
pub open spec fn field_number(metadata: Map<Seq<char>, Json>, key: Seq<char>) -> Result<
    nat,
    Seq<char>,
> {
    if !metadata.contains_key(key) {
        Err("metadata field "@ + debug_form(key) + " is missing"@)
    } else {
        let found = match metadata[key] {
            Json::Number(text) => plain_number(text@),
            Json::Text(text) => parsed_number(text@, u32::MAX as nat),
            _ => None,
        };
        match found {
            Some(n) => Ok(n),
            None => Err(no_number(key)),
        }
    }
}

/// The number of a field.
pub fn metadata_u32(metadata: &OrderedMap<Json>, key: &str) -> (result: Result<u32, Error>)
    ensures
        match field_number(metadata@, key@) {
            Ok(n) => result matches Ok(found) && found == n,
            Err(message) => result matches Err(error) && error@ == message,
        },
{
    let found = match metadata.get(key) {
        None => {
            return Err(
                failure(cat3("metadata field ", debug_text(key).as_str(), " is missing")),
            );
        },
        Some(Json::Number(text)) => {
            proof {
                reveal_strlit("+");
                if text@.len() > 0 && text@[0] == '+' {
                    assert(text@.subrange(0, 1) =~= "+"@);
                }
                if starts(text@, "+"@) {
                    assert(text@.subrange(0, 1)[0] == "+"@[0]);
                    assert(!crate::text::is_digit(text@[0]));
                }
            }
            if starts_with(text.as_str(), "+") {
                None
            } else {
                parse_number(text.as_str(), u32::MAX as u64)
            }
        },
        Some(Json::Text(text)) => parse_number(text.as_str(), u32::MAX as u64),
        Some(_) => None,
    };
    match found {
        Some(n) => Ok(n as u32),
        None => Err(failure(cat3("metadata field ", debug_text(key).as_str(), " must be a u32"))),
    }
}

/// The rectangle of four fields.
pub open spec fn field_rectangle(bounds: Map<Seq<char>, Json>) -> Result<Rect, Seq<char>> {
    match field_number(bounds, "x"@) {
        Err(message) => Err(message),
        Ok(x) => match field_number(bounds, "y"@) {
            Err(message) => Err(message),
            Ok(y) => match field_number(bounds, "width"@) {
                Err(message) => Err(message),
                Ok(width) => match field_number(bounds, "height"@) {
                    Err(message) => Err(message),
                    Ok(height) => Ok(
                        Rect {
                            x: x as u32,
                            y: y as u32,
                            width: width as u32,
                            height: height as u32,
                        },
                    ),
                },
            },
        },
    }
}

/// The rectangle of a screen that keeps the same distance from opposite sides of its image.
pub open spec fn centered(x: nat, y: nat, image_size: Viewport) -> Result<Rect, Seq<char>> {
    if 2 * x < image_size.width && 2 * y < image_size.height {
        Ok(
            Rect {
                x: x as u32,
                y: y as u32,
                width: (image_size.width - 2 * x) as u32,
                height: (image_size.height - 2 * y) as u32,
            },
        )
    } else {
        Err("legacy x/y bounds do not fit frame image"@)
    }
}

/// The rectangle of the screen, by what is known of a frame.
pub open spec fn known_bounds(metadata: Map<Seq<char>, Json>, image_size: Viewport) -> Result<
    Rect,
    Seq<char>,
> {
    if metadata.contains_key("screen_bounds"@) && metadata["screen_bounds"@] is Object {
        field_rectangle(metadata["screen_bounds"@]->Object_0@)
    } else {
        match field_number(metadata, "x"@) {
            Err(message) => Err(message),
            Ok(x) => match field_number(metadata, "y"@) {
                Err(message) => Err(message),
                Ok(y) => centered(x, y, image_size),
            },
        }
    }
}

fn rectangle(bounds: &OrderedMap<Json>) -> (result: Result<Rect, Error>)
    ensures
        match field_rectangle(bounds@) {
            Ok(rect) => result == Ok::<Rect, Error>(rect),
            Err(message) => result matches Err(error) && error@ == message,
        },
{
    let x: u32 = match metadata_u32(bounds, "x") {
        Ok(n) => n,
        Err(error) => {
            return Err(error);
        },
    };
    let y: u32 = match metadata_u32(bounds, "y") {
        Ok(n) => n,
        Err(error) => {
            return Err(error);
        },
    };
    let width: u32 = match metadata_u32(bounds, "width") {
        Ok(n) => n,
        Err(error) => {
            return Err(error);
        },
    };
    let height: u32 = match metadata_u32(bounds, "height") {
        Ok(n) => n,
        Err(error) => {
            return Err(error);
        },
    };
    Ok(Rect { x, y, width, height })
}

/// The rectangle of the screen, by what is known of a frame.
pub fn parse_frame_bounds(metadata: &OrderedMap<Json>, image_size: Viewport) -> (result: Result<
    Rect,
    Error,
>)
    ensures
        match known_bounds(metadata@, image_size) {
            Ok(rect) => result == Ok::<Rect, Error>(rect),
            Err(message) => result matches Err(error) && error@ == message,
        },
{
    if let Some(Json::Object(bounds)) = metadata.get("screen_bounds") {
        return rectangle(bounds);
    }
    let x: u32 = match metadata_u32(metadata, "x") {
        Ok(n) => n,
        Err(error) => {
            return Err(error);
        },
    };
    let y: u32 = match metadata_u32(metadata, "y") {
        Ok(n) => n,
        Err(error) => {
            return Err(error);
        },
    };
    if 2 * (x as u64) < image_size.width as u64 && 2 * (y as u64) < image_size.height as u64 {
        Ok(
            Rect {
                x,
                y,
                width: image_size.width - (x * 2),
                height: image_size.height - (y * 2),
            },
        )
    } else {
        Err(failure("legacy x/y bounds do not fit frame image".to_owned()))
    }
}

/// A screen that keeps the same distance from opposite sides lies inside its image.
pub proof fn law_centered_screens_lie_inside(x: nat, y: nat, image_size: Viewport)
    requires
        centered(x, y, image_size) is Ok,
    ensures
        ({
            let rect = centered(x, y, image_size)->Ok_0;
            &&& rect.width > 0 && rect.height > 0
            &&& rect.x + rect.width + rect.x == image_size.width
            &&& rect.y + rect.height + rect.y == image_size.height
        }),
{
}

} // verus!
