//! Characters, strings and the message type that failures carry.

use vstd::prelude::*;
use vstd::string::*;

verus! {

/// A failure, told to the user as one line of text.
#[derive(Debug)]
pub struct Error {
    pub message: String,
}

impl View for Error {
    type V = Seq<char>;

    open spec fn view(&self) -> Seq<char> {
        self.message@
    }
}

/// A check that fails exactly when a message is due, and then with that message.
pub open spec fn fails_as(result: Result<(), Error>, message: Option<Seq<char>>) -> bool {
    match message {
        None => result is Ok,
        Some(text) => result matches Err(error) && error@ == text,
    }
}

/// The failure with the given message.
pub fn failure(message: String) -> (error: Error)
    ensures
        error@ == message@,
{
    Error { message }
}

/// The first of the messages `f(i), f(i + 1), .., f(n - 1)` that is due.
pub open spec fn first_message(f: spec_fn(int) -> Option<Seq<char>>, i: int, n: int) -> Option<
    Seq<char>,
>
    decreases n - i,
{
    if i >= n {
        None
    } else if f(i) is Some {
        f(i)
    } else {
        first_message(f, i + 1, n)
    }
}

/// No message is due of a range exactly when none is due at any place in it.
pub proof fn lemma_first_message_none(f: spec_fn(int) -> Option<Seq<char>>, i: int, n: int)
    ensures
        first_message(f, i, n) is None <==> (forall|k: int| i <= k < n ==> (#[trigger] f(k)) is None),
    decreases n - i,
{
    if i < n {
        lemma_first_message_none(f, i + 1, n);
        if f(i) is None && first_message(f, i + 1, n) is None {
            assert forall|k: int| i <= k < n implies (#[trigger] f(k)) is None by {
                if k > i {
                }
            }
        }
    }
}

/// The characters of the Unicode `White_Space` property.
pub open spec fn is_white_space(c: char) -> bool {
    let n = c as u32;
    ||| 0x9 <= n <= 0xd
    ||| n == 0x20
    ||| n == 0x85
    ||| n == 0xa0
    ||| n == 0x1680
    ||| 0x2000 <= n <= 0x200a
    ||| n == 0x2028
    ||| n == 0x2029
    ||| n == 0x202f
    ||| n == 0x205f
    ||| n == 0x3000
}

/// Whether `c` is a white space character.
pub fn white_space(c: char) -> (result: bool)
    ensures
        result == is_white_space(c),
{
    let n: u32 = c as u32;
    (0x9 <= n && n <= 0xd) || n == 0x20 || n == 0x85 || n == 0xa0 || n == 0x1680 || (0x2000 <= n
        && n <= 0x200a) || n == 0x2028 || n == 0x2029 || n == 0x202f || n == 0x205f || n == 0x3000
}

/// ASCII letters and digits.
pub open spec fn is_ascii_alnum(c: char) -> bool {
    is_digit(c) || 'a' <= c <= 'z' || 'A' <= c <= 'Z'
}

/// Decimal digits.
pub open spec fn is_digit(c: char) -> bool {
    '0' <= c <= '9'
}

/// Whether `c` is an ASCII letter or digit.
pub fn ascii_alnum(c: char) -> (result: bool)
    ensures
        result == is_ascii_alnum(c),
{
    ('0' <= c && c <= '9') || ('a' <= c && c <= 'z') || ('A' <= c && c <= 'Z')
}

/// `c` with an ASCII capital replaced by its small letter.
pub open spec fn lower(c: char) -> char {
    if 'A' <= c <= 'Z' {
        (c as u32 + 32) as u8 as char
    } else {
        c
    }
}

/// `c` with an ASCII capital replaced by its small letter.
pub fn ascii_lower(c: char) -> (result: char)
    ensures
        result == lower(c),
{
    if 'A' <= c && c <= 'Z' {
        (c as u32 + 32) as u8 as char
    } else {
        c
    }
}

/// A text with its ASCII capitals replaced by small letters.
pub open spec fn lowered(s: Seq<char>) -> Seq<char> {
    s.map_values(|c: char| lower(c))
}

/// `String::push` appends one character.
pub assume_specification[ std::string::String::push ](s: &mut std::string::String, c: char)
    ensures
        final(s)@ == old(s)@.push(c),
;

/// Whether two strings hold the same characters.
pub fn same(a: &str, b: &str) -> (result: bool)
    ensures
        result == (a@ == b@),
{
    a.to_owned() == b.to_owned()
}

/// The characters of a string.
pub fn to_chars(s: &str) -> (chars: Vec<char>)
    ensures
        chars@ == s@,
{
    let mut chars: Vec<char> = Vec::new();
    for c in iter: s.chars()
        invariant
            iter.seq() == s@,
            chars@ == s@.take(iter.index() as int),
    {
        proof {
            assert(s@.take(iter.index() + 1) =~= s@.take(iter.index() as int).push(c));
        }
        chars.push(c);
    }
    assert(s@.take(s@.len() as int) =~= s@);
    chars
}

/// Only white space.
pub open spec fn blank(s: Seq<char>) -> bool {
    forall|i: int| 0 <= i < s.len() ==> is_white_space(#[trigger] s[i])
}

/// Whether a string holds nothing but white space.
pub fn is_blank(s: &str) -> (result: bool)
    ensures
        result == blank(s@),
{
    let chars = to_chars(s);
    let mut i: usize = 0;
    while i < chars.len()
        invariant
            i <= chars.len(),
            chars@ == s@,
            forall|k: int| 0 <= k < i ==> is_white_space(#[trigger] s@[k]),
        decreases chars.len() - i,
    {
        if !white_space(chars[i]) {
            return false;
        }
        i += 1;
    }
    true
}

/// `s` without its leading white space.
pub open spec fn trimmed_start(s: Seq<char>) -> Seq<char>
    decreases s.len(),
{
    if s.len() > 0 && is_white_space(s[0]) {
        trimmed_start(s.drop_first())
    } else {
        s
    }
}

/// `s` without its trailing white space.
pub open spec fn trimmed_end(s: Seq<char>) -> Seq<char>
    decreases s.len(),
{
    if s.len() > 0 && is_white_space(s.last()) {
        trimmed_end(s.drop_last())
    } else {
        s
    }
}

/// `s` without white space at either end.
pub open spec fn trimmed(s: Seq<char>) -> Seq<char> {
    trimmed_end(trimmed_start(s))
}

/// The string without white space at either end.
pub fn trim(s: &str) -> (result: &str)
    ensures
        result@ == trimmed(s@),
{
    let chars = to_chars(s);
    let n: usize = chars.len();
    let mut a: usize = 0;
    proof {
        assert(s@.subrange(0, n as int) =~= s@);
    }
    while a < n && white_space(chars[a])
        invariant
            a <= n == s@.len(),
            chars@ == s@,
            trimmed_start(s@) == trimmed_start(s@.subrange(a as int, n as int)),
        decreases n - a,
    {
        proof {
            assert(s@.subrange(a as int, n as int).drop_first() =~= s@.subrange(
                a + 1,
                n as int,
            ));
        }
        a += 1;
    }
    let mut b: usize = n;
    while a < b && white_space(chars[b - 1])
        invariant
            a <= b <= n == s@.len(),
            chars@ == s@,
            trimmed(s@) == trimmed_end(s@.subrange(a as int, b as int)),
        decreases b - a,
    {
        proof {
            assert(s@.subrange(a as int, b as int).drop_last() =~= s@.subrange(
                a as int,
                b - 1,
            ));
        }
        b -= 1;
    }
    s.substring_char(a, b)
}

/// Whether `s` begins with `prefix`.
pub open spec fn starts(s: Seq<char>, prefix: Seq<char>) -> bool {
    prefix.len() <= s.len() && s.take(prefix.len() as int) == prefix
}

/// Whether `s` ends with `suffix`.
pub open spec fn ends(s: Seq<char>, suffix: Seq<char>) -> bool {
    suffix.len() <= s.len() && s.skip(s.len() - suffix.len()) == suffix
}

/// Whether `part` stands in `s` at place `i`.
pub open spec fn occurs_at(s: Seq<char>, part: Seq<char>, i: int) -> bool {
    0 <= i && i + part.len() <= s.len() && s.subrange(i, i + part.len()) == part
}

/// Whether `part` stands somewhere in `s`.
pub open spec fn occurs(s: Seq<char>, part: Seq<char>) -> bool {
    exists|i: int| occurs_at(s, part, i)
}

/// The first place from `from` on at which `part` stands in `s`.
pub open spec fn first_place(s: Seq<char>, part: Seq<char>, from: int) -> Option<int>
    decreases s.len() + 1 - from,
{
    if from < 0 || from + part.len() > s.len() {
        None
    } else if occurs_at(s, part, from) {
        Some(from)
    } else {
        first_place(s, part, from + 1)
    }
}

/// Whether the characters `part` stand in `chars` at place `i`.
pub fn chars_at(chars: &Vec<char>, part: &Vec<char>, i: usize) -> (result: bool)
    ensures
        result == occurs_at(chars@, part@, i as int),
{
    if part.len() > chars.len() || i > chars.len() - part.len() {
        return false;
    }
    let mut k: usize = 0;
    while k < part.len()
        invariant
            k <= part.len(),
            i + part.len() <= chars.len(),
            forall|j: int| 0 <= j < k ==> chars@[i + j] == #[trigger] part@[j],
        decreases part.len() - k,
    {
        if chars[i + k] != part[k] {
            proof {
                assert(chars@.subrange(i as int, i + part.len())[k as int] != part@[k as int]);
            }
            return false;
        }
        k += 1;
    }
    proof {
        assert(chars@.subrange(i as int, i + part.len()) =~= part@);
    }
    true
}

/// The first place from `from` on at which `part` stands in `chars`.
pub fn find_chars(chars: &Vec<char>, part: &Vec<char>, from: usize) -> (place: Option<usize>)
    ensures
        match place {
            Some(i) => first_place(chars@, part@, from as int) == Some(i as int),
            None => first_place(chars@, part@, from as int) is None,
        },
        place matches Some(i) ==> from <= i && i + part.len() <= chars.len(),
{
    if part.len() > chars.len() {
        return None;
    }
    let mut i: usize = from;
    while i <= chars.len() - part.len()
        invariant
            from <= i,
            part.len() <= chars.len(),
            first_place(chars@, part@, from as int) == first_place(chars@, part@, i as int),
        decreases chars.len() - part.len() + 1 - i,
    {
        if chars_at(chars, part, i) {
            return Some(i);
        }
        if i == chars.len() - part.len() {
            proof {
                assert(first_place(chars@, part@, i + 1) is None);
            }
            return None;
        }
        i += 1;
    }
    None
}

/// A first place is a place, and none before it is one; without one there is no place at all.
pub proof fn lemma_first_place(s: Seq<char>, part: Seq<char>, from: int)
    requires
        0 <= from,
    ensures
        match first_place(s, part, from) {
            Some(i) => from <= i && occurs_at(s, part, i) && (forall|k: int|
                from <= k < i ==> !(#[trigger] occurs_at(s, part, k))),
            None => forall|k: int| from <= k ==> !(#[trigger] occurs_at(s, part, k)),
        },
    decreases s.len() + 1 - from,
{
    if from + part.len() <= s.len() && !occurs_at(s, part, from) {
        lemma_first_place(s, part, from + 1);
    }
}

/// The rest of a text from a place on, with another text wherever `part` stands.
pub open spec fn replaced_from(s: Seq<char>, part: Seq<char>, other: Seq<char>, from: int) -> Seq<
    char,
>
    decreases s.len() - from,
{
    if from < 0 || from > s.len() {
        seq![]
    } else {
        match first_place(s, part, from) {
            Some(i) => if i < from || part.len() == 0 || i + part.len() > s.len() {
                s.skip(from)
            } else {
                s.subrange(from, i) + other + replaced_from(s, part, other, i + part.len())
            },
            None => s.skip(from),
        }
    }
}

/// A text with another text wherever `part` stands.
pub open spec fn replaced(s: Seq<char>, part: Seq<char>, other: Seq<char>) -> Seq<char> {
    replaced_from(s, part, other, 0)
}

/// A text with another text wherever `part` stands.
pub fn replace(s: &str, part: &str, other: &str) -> (result: String)
    requires
        part@.len() > 0,
    ensures
        result@ == replaced(s@, part@, other@),
{
    let chars = to_chars(s);
    let pattern = to_chars(part);
    let mut result = String::new();
    let mut from: usize = 0;
    proof {
        assert(result@ + replaced(s@, part@, other@) =~= replaced(s@, part@, other@));
    }
    while from <= chars.len()
        invariant
            from <= chars.len(),
            chars@ == s@,
            pattern@ == part@,
            part@.len() > 0,
            result@ + replaced_from(s@, part@, other@, from as int) == replaced(
                s@,
                part@,
                other@,
            ),
        decreases chars.len() - from,
    {
        let ghost before = result@;
        match find_chars(&chars, &pattern, from) {
            Some(i) => {
                let piece = text_between(&chars, from, i);
                result = result.concat(piece.as_str()).concat(other);
                proof {
                    let rest = replaced_from(s@, part@, other@, i + part@.len());
                    assert(before + (s@.subrange(from as int, i as int) + other@ + rest) =~= before
                        + s@.subrange(from as int, i as int) + other@ + rest);
                }
                from = i + pattern.len();
            },
            None => {
                let piece = text_between(&chars, from, chars.len());
                proof {
                    assert(s@.skip(from as int) =~= s@.subrange(from as int, s@.len() as int));
                }
                return result.concat(piece.as_str());
            },
        }
    }
    result
}

/// A text without a character at its start, however often it stands there.
pub open spec fn stripped_start(s: Seq<char>, c: char) -> Seq<char>
    decreases s.len(),
{
    if s.len() > 0 && s[0] == c {
        stripped_start(s.drop_first(), c)
    } else {
        s
    }
}

/// A text without a character at its end, however often it stands there.
pub open spec fn stripped_end(s: Seq<char>, c: char) -> Seq<char>
    decreases s.len(),
{
    if s.len() > 0 && s.last() == c {
        stripped_end(s.drop_last(), c)
    } else {
        s
    }
}

/// A text without a character at its end.
pub fn strip_end(s: &str, c: char) -> (result: String)
    ensures
        result@ == stripped_end(s@, c),
{
    let chars = to_chars(s);
    let mut n: usize = chars.len();
    proof {
        assert(s@.take(n as int) =~= s@);
    }
    while n > 0 && chars[n - 1] == c
        invariant
            n <= chars.len(),
            chars@ == s@,
            stripped_end(s@.take(n as int), c) == stripped_end(s@, c),
        decreases n,
    {
        proof {
            assert(s@.take(n as int).drop_last() =~= s@.take(n - 1));
            assert(s@.take(n as int).last() == chars@[n - 1]);
        }
        n -= 1;
    }
    proof {
        if n > 0 {
            assert(s@.take(n as int).last() == chars@[n - 1]);
        }
        assert(s@.take(n as int) =~= s@.subrange(0, n as int));
    }
    text_between(&chars, 0, n)
}

/// A text without a character at its start.
pub fn strip_start(s: &str, c: char) -> (result: String)
    ensures
        result@ == stripped_start(s@, c),
{
    let chars = to_chars(s);
    let mut i: usize = 0;
    proof {
        assert(s@.skip(0) =~= s@);
    }
    while i < chars.len() && chars[i] == c
        invariant
            i <= chars.len(),
            chars@ == s@,
            stripped_start(s@.skip(i as int), c) == stripped_start(s@, c),
        decreases chars.len() - i,
    {
        proof {
            assert(s@.skip(i as int).drop_first() =~= s@.skip(i + 1));
            assert(s@.skip(i as int)[0] == chars@[i as int]);
        }
        i += 1;
    }
    proof {
        if i < chars.len() {
            assert(s@.skip(i as int)[0] == chars@[i as int]);
        }
        assert(s@.skip(i as int) =~= s@.subrange(i as int, s@.len() as int));
    }
    text_between(&chars, i, chars.len())
}

/// A text without a character at its start and its end.
pub fn strip_both(s: &str, c: char) -> (result: String)
    ensures
        result@ == stripped_start(stripped_end(s@, c), c),
{
    strip_start(strip_end(s, c).as_str(), c)
}

/// A text without another text at its start, however often it stands there.
pub open spec fn without_prefixes(s: Seq<char>, prefix: Seq<char>) -> Seq<char>
    decreases s.len(),
{
    if prefix.len() > 0 && starts(s, prefix) {
        without_prefixes(s.skip(prefix.len() as int), prefix)
    } else {
        s
    }
}

/// A text without another text at its start.
pub fn strip_prefixes(s: &str, prefix: &str) -> (result: String)
    requires
        prefix@.len() > 0,
    ensures
        result@ == without_prefixes(s@, prefix@),
{
    let chars = to_chars(s);
    let part = to_chars(prefix);
    let mut i: usize = 0;
    proof {
        assert(s@.skip(0) =~= s@);
    }
    while i <= chars.len()
        invariant
            i <= chars.len(),
            chars@ == s@,
            part@ == prefix@,
            prefix@.len() > 0,
            without_prefixes(s@.skip(i as int), prefix@) == without_prefixes(s@, prefix@),
        decreases chars.len() - i,
    {
        let ghost rest = s@.skip(i as int);
        proof {
            if i + part.len() <= chars.len() {
                assert(rest.subrange(0, part@.len() as int) =~= s@.subrange(
                    i as int,
                    i + part@.len(),
                ));
            }
        }
        if !chars_at(&chars, &part, i) {
            proof {
                assert(rest =~= s@.subrange(i as int, s@.len() as int));
            }
            return text_between(&chars, i, chars.len());
        }
        proof {
            assert(rest.skip(part@.len() as int) =~= s@.skip(i + part@.len()));
        }
        i += part.len();
    }
    s.to_owned()
}

/// A text without its leading white space.
pub fn trim_start(s: &str) -> (result: String)
    ensures
        result@ == trimmed_start(s@),
{
    let chars = to_chars(s);
    let mut i: usize = 0;
    proof {
        assert(s@.skip(0) =~= s@);
    }
    while i < chars.len() && white_space(chars[i])
        invariant
            i <= chars.len(),
            chars@ == s@,
            trimmed_start(s@.skip(i as int)) == trimmed_start(s@),
        decreases chars.len() - i,
    {
        proof {
            assert(s@.skip(i as int).drop_first() =~= s@.skip(i + 1));
            assert(s@.skip(i as int)[0] == chars@[i as int]);
        }
        i += 1;
    }
    proof {
        if i < chars.len() {
            assert(s@.skip(i as int)[0] == chars@[i as int]);
        }
        assert(s@.skip(i as int) =~= s@.subrange(i as int, s@.len() as int));
    }
    text_between(&chars, i, chars.len())
}

/// A text without its trailing white space.
pub fn trim_end(s: &str) -> (result: String)
    ensures
        result@ == trimmed_end(s@),
{
    let chars = to_chars(s);
    let mut n: usize = chars.len();
    proof {
        assert(s@.take(n as int) =~= s@);
    }
    while n > 0 && white_space(chars[n - 1])
        invariant
            n <= chars.len(),
            chars@ == s@,
            trimmed_end(s@.take(n as int)) == trimmed_end(s@),
        decreases n,
    {
        proof {
            assert(s@.take(n as int).drop_last() =~= s@.take(n - 1));
            assert(s@.take(n as int).last() == chars@[n - 1]);
        }
        n -= 1;
    }
    proof {
        if n > 0 {
            assert(s@.take(n as int).last() == chars@[n - 1]);
        }
        assert(s@.take(n as int) =~= s@.subrange(0, n as int));
    }
    text_between(&chars, 0, n)
}

/// The characters between two places, as a text.
pub fn text_between(chars: &Vec<char>, from: usize, to: usize) -> (result: String)
    requires
        from <= to <= chars.len(),
    ensures
        result@ == chars@.subrange(from as int, to as int),
{
    let mut result = String::new();
    let mut i: usize = from;
    proof {
        assert(result@ =~= chars@.subrange(from as int, from as int));
    }
    while i < to
        invariant
            from <= i <= to <= chars.len(),
            result@ == chars@.subrange(from as int, i as int),
        decreases to - i,
    {
        result.push(chars[i]);
        proof {
            assert(chars@.subrange(from as int, i + 1) =~= chars@.subrange(
                from as int,
                i as int,
            ).push(chars@[i as int]));
        }
        i += 1;
    }
    result
}

/// Whether `s` begins with `prefix`.
pub fn starts_with(s: &str, prefix: &str) -> (result: bool)
    ensures
        result == starts(s@, prefix@),
{
    let chars = to_chars(s);
    let part = to_chars(prefix);
    proof {
        if part.len() <= chars.len() {
            assert(s@.take(prefix@.len() as int) =~= s@.subrange(0, prefix@.len() as int));
        }
    }
    chars_at(&chars, &part, 0)
}

/// Whether `s` ends with `suffix`.
pub fn ends_with(s: &str, suffix: &str) -> (result: bool)
    ensures
        result == ends(s@, suffix@),
{
    let chars = to_chars(s);
    let part = to_chars(suffix);
    if part.len() > chars.len() {
        return false;
    }
    proof {
        let i = s@.len() - suffix@.len();
        assert(s@.skip(i) =~= s@.subrange(i, i + suffix@.len()));
    }
    chars_at(&chars, &part, chars.len() - part.len())
}

/// Whether `part` stands somewhere in `s`.
pub fn contains(s: &str, part: &str) -> (result: bool)
    ensures
        result == occurs(s@, part@),
{
    let chars = to_chars(s);
    let part_chars = to_chars(part);
    proof {
        lemma_first_place(s@, part@, 0);
    }
    match find_chars(&chars, &part_chars, 0) {
        Some(_) => true,
        None => false,
    }
}

/// The string with its ASCII capitals replaced by small letters.
pub fn to_lower(s: &str) -> (result: String)
    ensures
        result@ == lowered(s@),
{
    let chars = to_chars(s);
    let mut result = String::new();
    let mut i: usize = 0;
    while i < chars.len()
        invariant
            i <= chars.len(),
            chars@ == s@,
            result@ == lowered(s@.take(i as int)),
        decreases chars.len() - i,
    {
        result.push(ascii_lower(chars[i]));
        proof {
            assert(lowered(s@.take(i + 1)) =~= lowered(s@.take(i as int)).push(
                lower(s@[i as int]),
            ));
        }
        i += 1;
    }
    assert(s@.take(s@.len() as int) =~= s@);
    result
}

/// What the `Debug` form of a string shows: the text in double quotes, with escapes.
pub uninterp spec fn debug_form(s: Seq<char>) -> Seq<char>;

/// `format!("{:?}")` on a string. The result depends on the characters alone; which of
/// them are escaped, and how, is left unsaid.
#[verifier::external_body]
pub(crate) fn debug_text(s: &str) -> (result: String)
    ensures
        result@ == debug_form(s@),
{
    format!("{:?}", s)
}

/// The decimal digit of a number below ten.
pub open spec fn digit(n: nat) -> char {
    (n + 48) as u8 as char
}

/// The decimal digits of a number.
pub open spec fn decimal(n: nat) -> Seq<char>
    decreases n,
{
    if n < 10 {
        seq![digit(n)]
    } else {
        decimal(n / 10).push(digit(n % 10))
    }
}

/// The decimal digits of a number.
pub fn decimal_text(n: u64) -> (result: String)
    ensures
        result@ == decimal(n as nat),
    decreases n,
{
    let last: char = (n % 10 + 48) as u8 as char;
    let mut result = if n < 10 {
        String::new()
    } else {
        decimal_text(n / 10)
    };
    result.push(last);
    proof {
        if n < 10 {
            assert(result@ =~= seq![digit(n as nat)]);
        }
    }
    result
}

/// The number that a row of decimal digits stands for.
pub open spec fn digits_value(s: Seq<char>) -> nat
    decreases s.len(),
{
    if s.len() == 0 {
        0
    } else {
        digits_value(s.drop_last()) * 10 + (s.last() as u32 - 48) as nat
    }
}

/// A row of one or more decimal digits.
pub open spec fn all_digits(s: Seq<char>) -> bool {
    s.len() > 0 && forall|i: int| 0 <= i < s.len() ==> is_digit(#[trigger] s[i])
}

/// The digits of a number stand for that number.
pub proof fn lemma_decimal_value(n: nat)
    ensures
        all_digits(decimal(n)),
        digits_value(decimal(n)) == n,
    decreases n,
{
    let s = decimal(n);
    if n < 10 {
        assert(s.drop_last() =~= Seq::<char>::empty());
        assert(digits_value(s.drop_last()) == 0);
        assert(s.last() == digit(n));
    } else {
        lemma_decimal_value(n / 10);
        assert(s.drop_last() =~= decimal(n / 10));
        assert(s.last() == digit(n % 10));
        assert forall|i: int| 0 <= i < s.len() implies is_digit(#[trigger] s[i]) by {
            if i < s.len() - 1 {
                assert(s[i] == decimal(n / 10)[i]);
            }
        }
    }
}

/// The value that `str::parse` gives an unsigned number of at most `max`: digits, with an
/// optional plus sign before them.
pub open spec fn parsed_number(s: Seq<char>, max: nat) -> Option<nat> {
    let digits = if s.len() > 0 && s[0] == '+' {
        s.drop_first()
    } else {
        s
    };
    if all_digits(digits) && digits_value(digits) <= max {
        Some(digits_value(digits))
    } else {
        None
    }
}

proof fn lemma_digits_value_grows(s: Seq<char>, n: int)
    requires
        forall|i: int| 0 <= i < s.len() ==> is_digit(#[trigger] s[i]),
        0 <= n <= s.len(),
    ensures
        digits_value(s.take(n)) <= digits_value(s),
    decreases s.len() - n,
{
    if n < s.len() {
        lemma_digits_value_grows(s, n + 1);
        assert(s.take(n + 1).drop_last() =~= s.take(n));
        assert(s.take(n + 1).last() == s[n]);
    } else {
        assert(s.take(n) =~= s);
    }
}

/// The number that `str::parse` reads, if it is at most `max`.
pub fn parse_number(s: &str, max: u64) -> (result: Option<u64>)
    ensures
        match result {
            Some(n) => parsed_number(s@, max as nat) == Some(n as nat),
            None => parsed_number(s@, max as nat) is None,
        },
{
    let chars = to_chars(s);
    let start: usize = if chars.len() > 0 && chars[0] == '+' {
        1
    } else {
        0
    };
    let ghost digits = s@.skip(start as int);
    proof {
        if start == 1 {
            assert(s@.drop_first() =~= digits);
        } else {
            assert(digits =~= s@);
        }
    }
    if start == chars.len() {
        return None;
    }
    let mut value: u64 = 0;
    let mut i: usize = start;
    proof {
        assert(digits.take(0) =~= Seq::<char>::empty());
    }
    while i < chars.len()
        invariant
            start <= i <= chars.len(),
            start <= 1,
            chars@ == s@,
            digits == s@.skip(start as int),
            forall|k: int| 0 <= k < i - start ==> is_digit(#[trigger] digits[k]),
            value <= max,
            value == digits_value(digits.take(i - start)),
            parsed_number(s@, max as nat) == (if all_digits(digits) && digits_value(digits)
                <= max {
                Some(digits_value(digits))
            } else {
                None
            }),
        decreases chars.len() - i,
    {
        let c = chars[i];
        proof {
            assert(digits[i - start] == c);
        }
        if !('0' <= c && c <= '9') {
            return None;
        }
        let d: u64 = (c as u32 - 48) as u64;
        proof {
            let n = i - start;
            assert(digits.take(n + 1).drop_last() =~= digits.take(n));
            assert(digits.take(n + 1).last() == c);
            assert(digits_value(digits.take(n + 1)) == value * 10 + d);
            if value * 10 + d > max {
                if all_digits(digits) {
                    lemma_digits_value_grows(digits, n + 1);
                }
            }
        }
        if d > max || value > max / 10 || value * 10 > max - d {
            proof {
                assert(value * 10 + d > max);
            }
            return None;
        }
        value = value * 10 + d;
        i += 1;
    }
    proof {
        assert(digits.take(digits.len() as int) =~= digits);
    }
    Some(value)
}

/// Texts in a row with a separator between them.
pub open spec fn joined(parts: Seq<Seq<char>>, separator: Seq<char>) -> Seq<char>
    decreases parts.len(),
{
    if parts.len() == 0 {
        seq![]
    } else if parts.len() == 1 {
        parts[0]
    } else {
        joined(parts.drop_last(), separator) + separator + parts.last()
    }
}

/// The texts of a list of strings.
pub open spec fn texts(items: Seq<String>) -> Seq<Seq<char>> {
    items.map_values(|item: String| item@)
}

/// Strings in a row with a separator between them.
pub fn join(parts: &Vec<String>, separator: &str) -> (result: String)
    ensures
        result@ == joined(texts(parts@), separator@),
{
    let mut result = String::new();
    let mut i: usize = 0;
    proof {
        assert(texts(parts@).take(0) =~= Seq::<Seq<char>>::empty());
    }
    while i < parts.len()
        invariant
            i <= parts.len(),
            result@ == joined(texts(parts@).take(i as int), separator@),
        decreases parts.len() - i,
    {
        if i > 0 {
            result.append(separator);
        }
        result.append(parts[i].as_str());
        proof {
            let all = texts(parts@);
            let next = all.take(i + 1);
            assert(next.drop_last() =~= all.take(i as int));
            assert(next.last() == parts@[i as int]@);
            if i == 0 {
                assert(result@ =~= next[0]);
            }
        }
        i += 1;
    }
    proof {
        assert(texts(parts@).take(parts@.len() as int) =~= texts(parts@));
    }
    result
}

/// The pieces of a text between the places of a separator; without one, the text itself.
pub open spec fn pieces(s: Seq<char>, separator: char) -> Seq<Seq<char>>
    decreases s.len(),
{
    if s.len() == 0 {
        seq![s]
    } else {
        let before = pieces(s.drop_last(), separator);
        if s.last() == separator {
            before.push(seq![])
        } else {
            before.drop_last().push(before.last().push(s.last()))
        }
    }
}

/// There is always a piece, and no piece holds the separator.
pub proof fn lemma_pieces(s: Seq<char>, separator: char)
    ensures
        pieces(s, separator).len() > 0,
        forall|i: int|
            0 <= i < pieces(s, separator).len() ==> !(#[trigger] pieces(s, separator)[i]).contains(
                separator,
            ),
    decreases s.len(),
{
    let all = pieces(s, separator);
    if s.len() > 0 {
        lemma_pieces(s.drop_last(), separator);
        let before = pieces(s.drop_last(), separator);
        assert forall|i: int| 0 <= i < all.len() implies !(#[trigger] all[i]).contains(
            separator,
        ) by {
            if i < all.len() - 1 {
                assert(all[i] == before[i]);
            } else if s.last() != separator {
                let last = before.last();
                assert(!before[before.len() - 1].contains(separator));
                if all[i].contains(separator) {
                    let k = choose|k: int| 0 <= k < all[i].len() && all[i][k] == separator;
                    assert(k < last.len());
                    assert(last[k] == separator);
                    assert(last.contains(separator));
                }
            }
        }
    } else {
        assert(all[0] == s);
    }
}

/// A text without the separator is one piece.
pub proof fn lemma_one_piece(s: Seq<char>, separator: char)
    requires
        !s.contains(separator),
    ensures
        pieces(s, separator) == seq![s],
    decreases s.len(),
{
    if s.len() > 0 {
        assert(s[s.len() - 1] == s.last());
        let shorter = s.drop_last();
        if shorter.contains(separator) {
            let k = choose|k: int| 0 <= k < shorter.len() && shorter[k] == separator;
            assert(s[k] == separator);
        }
        lemma_one_piece(shorter, separator);
        assert(shorter.push(s.last()) =~= s);
        assert(pieces(s, separator) =~= seq![s]);
    }
}

/// Two texts with the separator between them are the pieces of the one and then of the other.
pub proof fn lemma_pieces_joined(a: Seq<char>, b: Seq<char>, separator: char)
    ensures
        pieces(a.push(separator) + b, separator) == pieces(a, separator) + pieces(b, separator),
    decreases b.len(),
{
    let s = a.push(separator) + b;
    lemma_pieces(a, separator);
    lemma_pieces(b, separator);
    if b.len() == 0 {
        assert(b =~= seq![]);
        assert(s =~= a.push(separator));
        assert(s.drop_last() =~= a);
        assert(pieces(s, separator) =~= pieces(a, separator) + pieces(b, separator));
    } else {
        let shorter = b.drop_last();
        lemma_pieces(shorter, separator);
        lemma_pieces_joined(a, shorter, separator);
        assert(s.drop_last() =~= a.push(separator) + shorter);
        assert(s.last() == b.last());
        assert(pieces(s, separator) =~= pieces(a, separator) + pieces(b, separator));
    }
}

/// The pieces of a string between the places of a separator.
pub fn split(s: &str, separator: char) -> (result: Vec<String>)
    ensures
        texts(result@) == pieces(s@, separator),
        result.len() > 0,
{
    let chars = to_chars(s);
    let mut result: Vec<String> = Vec::new();
    let mut last = String::new();
    let mut i: usize = 0;
    proof {
        assert(s@.take(0) =~= Seq::<char>::empty());
        assert(pieces(s@.take(0), separator) =~= texts(result@).push(last@));
    }
    while i < chars.len()
        invariant
            i <= chars.len(),
            chars@ == s@,
            pieces(s@.take(i as int), separator) == texts(result@).push(last@),
        decreases chars.len() - i,
    {
        let ghost before = texts(result@).push(last@);
        proof {
            assert(s@.take(i + 1).drop_last() =~= s@.take(i as int));
            assert(s@.take(i + 1).last() == chars@[i as int]);
            assert(before.drop_last() =~= texts(result@));
        }
        if chars[i] == separator {
            let ghost done = result@;
            result.push(last);
            last = String::new();
            proof {
                assert(texts(result@) =~= before);
                assert(pieces(s@.take(i + 1), separator) =~= texts(result@).push(last@));
            }
        } else {
            last.push(chars[i]);
            proof {
                assert(pieces(s@.take(i + 1), separator) =~= texts(result@).push(last@));
            }
        }
        i += 1;
    }
    let ghost before = texts(result@).push(last@);
    result.push(last);
    proof {
        assert(s@.take(s@.len() as int) =~= s@);
        assert(texts(result@) =~= before);
    }
    result
}

/// A text filled up with blanks to a width.
pub open spec fn padded(s: Seq<char>, width: nat) -> Seq<char>
    decreases width - s.len(),
{
    if s.len() >= width {
        s
    } else {
        padded(s.push(' '), width)
    }
}

/// A string filled up with blanks to a width.
pub fn pad(s: &str, width: usize) -> (result: String)
    ensures
        result@ == padded(s@, width as nat),
{
    let mut result = s.to_owned();
    let mut n: usize = s.unicode_len();
    while n < width
        invariant
            n == result@.len(),
            padded(s@, width as nat) == padded(result@, width as nat),
        decreases width - n,
    {
        result.push(' ');
        n += 1;
    }
    result
}

/// The first of two messages that is due.
pub open spec fn earlier(a: Option<Seq<char>>, b: Option<Seq<char>>) -> Option<Seq<char>> {
    if a is Some {
        a
    } else {
        b
    }
}

/// A message that is due on a condition.
pub open spec fn due_if(condition: bool, message: Seq<char>) -> Option<Seq<char>> {
    if condition {
        Some(message)
    } else {
        None
    }
}

/// `a` followed by `b`.
pub fn cat(a: &str, b: &str) -> (result: String)
    ensures
        result@ == a@ + b@,
{
    a.to_owned().concat(b)
}

/// `a`, `b` and `c` in a row.
pub fn cat3(a: &str, b: &str, c: &str) -> (result: String)
    ensures
        result@ == a@ + b@ + c@,
{
    a.to_owned().concat(b).concat(c)
}

/// A string that is given.
pub open spec fn given(value: Option<&str>) -> Option<Seq<char>> {
    match value {
        Some(text) => Some(text@),
        None => None,
    }
}

/// The text of a string that may be missing.
pub open spec fn owned(value: Option<String>) -> Option<Seq<char>> {
    match value {
        Some(text) => Some(text@),
        None => None,
    }
}

/// A string that may be missing, borrowed.
pub fn as_deref(value: &Option<String>) -> (result: Option<&str>)
    ensures
        given(result) == owned(*value),
{
    match value {
        Some(text) => Some(text.as_str()),
        None => None,
    }
}

} // verus!
