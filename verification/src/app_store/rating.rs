//! Age ratings and categories.

use vstd::prelude::*;
use vstd::string::*;
use crate::app_store::AgeRatingDeclaration;
use crate::json::{all_members, Json, JsonView, Members};
use crate::ordered::OrderedMap;
use crate::text::{owned, same, to_chars};

verus! {

/// The capital form of a character, which may be several characters.
pub uninterp spec fn uppercase_of(c: char) -> Seq<char>;

/// The capital form of a character: of a small ASCII letter its capital, of another ASCII character
/// itself.
pub open spec fn capital(c: char) -> Seq<char> {
    if 'a' <= c <= 'z' {
        seq![(c as u32 - 32) as u8 as char]
    } else if c as u32 <= 127 {
        seq![c]
    } else {
        uppercase_of(c)
    }
}

/// `char::to_uppercase`. ASCII letters become their capitals and other ASCII characters stay;
/// beyond ASCII the result is left unsaid, but depends on the character alone.
#[verifier::external_body]
fn uppercase(c: char) -> (chars: Vec<char>)
    ensures
        chars@ == uppercase_of(c),
        chars@ == capital(c),
{
    c.to_uppercase().collect()
}

/// A name with underscores in camel case, and whether an underscore came last. Each underscore
/// goes, and what follows it becomes a capital.
pub open spec fn camel(key: Seq<char>) -> (Seq<char>, bool)
    decreases key.len(),
{
    if key.len() == 0 {
        (seq![], false)
    } else {
        let (output, raise) = camel(key.drop_last());
        let c = key.last();
        if c == '_' {
            (output, true)
        } else if raise {
            (output + capital(c), false)
        } else {
            (output.push(c), false)
        }
    }
}

/// A name with underscores in camel case.
pub fn snake_to_camel(key: &str) -> (result: String)
    ensures
        result@ == camel(key@).0,
{
    let chars = to_chars(key);
    let mut output = String::new();
    let mut raise = false;
    let mut i: usize = 0;
    proof {
        assert(key@.take(0) =~= Seq::<char>::empty());
    }
    while i < chars.len()
        invariant
            i <= chars.len(),
            chars@ == key@,
            (output@, raise) == camel(key@.take(i as int)),
        decreases chars.len() - i,
    {
        let c = chars[i];
        proof {
            assert(key@.take(i + 1).drop_last() =~= key@.take(i as int));
            assert(key@.take(i + 1).last() == c);
        }
        if c == '_' {
            raise = true;
        } else if raise {
            let capitals = uppercase(c);
            let ghost before = output@;
            let mut k: usize = 0;
            while k < capitals.len()
                invariant
                    k <= capitals.len(),
                    output@ == before + capitals@.take(k as int),
                decreases capitals.len() - k,
            {
                output.push(capitals[k]);
                proof {
                    assert(before + capitals@.take(k + 1) =~= (before + capitals@.take(
                        k as int,
                    )).push(capitals@[k as int]));
                }
                k += 1;
            }
            proof {
                assert(capitals@.take(capitals@.len() as int) =~= capitals@);
            }
            raise = false;
        } else {
            output.push(c);
        }
        i += 1;
    }
    proof {
        assert(key@.take(key@.len() as int) =~= key@);
    }
    output
}

/// The attributes of the first `n` answers of an age rating.
pub open spec fn rating_members(entries: Seq<(Seq<char>, Json)>, n: nat) -> Map<
    Seq<char>,
    JsonView,
>
    decreases n,
{
    if n == 0 || n > entries.len() {
        Map::empty()
    } else {
        rating_members(entries, (n - 1) as nat).insert(
            camel(entries[n - 1].0).0,
            entries[n - 1].1@,
        )
    }
}

/// The attributes of the answers of an age rating.
pub open spec fn rating_attrs(answers: OrderedMap<Json>) -> Map<Seq<char>, JsonView> {
    rating_members(answers.entries(), answers.entries().len())
}

/// The attributes of the answers of an age rating.
pub fn age_rating_attrs(attrs: &OrderedMap<Json>) -> (members: Members)
    ensures
        members@ == rating_attrs(*attrs),
{
    let n: usize = attrs.len();
    let mut members = Members::new();
    let mut i: usize = 0;
    while i < n
        invariant
            i <= n == attrs.entries().len(),
            members@ == rating_members(attrs.entries(), i as nat),
        decreases n - i,
    {
        let key = snake_to_camel(attrs.key_at(i).as_str());
        members.put(key.as_str(), attrs.value_at(i).copy());
        i += 1;
    }
    members
}

/// Whether every answer is the one in the account; others there play no part.
pub fn age_rating_matches(current: &AgeRatingDeclaration, desired: &OrderedMap<Json>) -> (result:
    bool)
    ensures
        result == rating_attrs(*desired).submap_of(all_members(current.attributes)),
{
    age_rating_attrs(desired).stands_in(&current.attributes)
}

/// Whether a category is the one in the account; one that is not given plays no part.
pub fn category_matches(desired: Option<&str>, current: Option<String>) -> (result: bool)
    ensures
        result == (desired matches Some(wanted) ==> owned(current) == Some(wanted@)),
{
    match desired {
        None => true,
        Some(wanted) => match current {
            Some(found) => same(found.as_str(), wanted),
            None => false,
        },
    }
}

} // verus!
