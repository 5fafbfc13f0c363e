//! What is promised of texts and paths.

use vstd::prelude::*;
use vstd::string::*;
use crate::api::Verb;
use crate::app_store::resolve::safe_segment;
use crate::app_store::resources::pages::page_render_dir;
use crate::app_store::upload::{hex, hex_digit};
use crate::app_store::upload_laws::law_safe_segments;
use crate::auth::normalized_key;
use crate::config::MediaScreenshotSet;
use crate::markup::{html_of, xml_of};
use crate::media_render::frame::FrameFit;
use crate::ordered::precedes;
use crate::paths::{absolute, extension_of, file_name_of, last_name, stem_of, under};
use crate::ranked::Ranked;
use crate::scope::{scope_name, Scope};
use crate::state::{empty_state, STATE_VERSION};
use crate::sync::ChangeKind;
use crate::text::{
    blank, ends, first_place, is_white_space, lemma_first_place, lemma_one_piece,
    lemma_pieces_joined, lower, lowered, occurs, occurs_at, pieces, replaced, replaced_from, starts,
    trimmed, trimmed_end, trimmed_start,
};

verus! {

/// A text without the space around it starts and ends with something else, is part of the text, and
/// is empty just where the text is blank.
pub proof fn law_trimming(s: Seq<char>)
    ensures
        trimmed(s).len() > 0 ==> !is_white_space(trimmed(s)[0]) && !is_white_space(
            trimmed(s).last(),
        ),
        exists|a: int, b: int|
            0 <= a <= b <= s.len() && #[trigger] s.subrange(a, b) == trimmed(s) && blank(
                s.subrange(0, a),
            ) && blank(s.subrange(b, s.len() as int)),
        trimmed(s).len() == 0 <==> blank(s),
        trimmed(trimmed(s)) == trimmed(s),
{
    let a = lemma_trimmed_start(s);
    let rest = trimmed_start(s);
    let b = lemma_trimmed_end(rest);
    assert(rest.subrange(0, b) =~= s.subrange(a, a + b));
    assert(s.subrange(a + b, s.len() as int) =~= rest.subrange(b, rest.len() as int));
    assert(s.subrange(a, a + b) == trimmed(s));
    if trimmed(s).len() > 0 {
        assert(trimmed(s)[0] == rest[0]);
        assert(trimmed_start(trimmed(s)) == trimmed(s));
        assert(trimmed_end(trimmed(s)) == trimmed(s));
    } else {
        assert forall|i: int| 0 <= i < s.len() implies is_white_space(#[trigger] s[i]) by {
            if i < a {
                assert(s.subrange(0, a)[i] == s[i]);
            } else {
                assert(s.subrange(a + b, s.len() as int)[i - a - b] == s[i]);
            }
        }
        assert(trimmed(s) =~= seq![]);
    }
    if blank(s) && trimmed(s).len() > 0 {
        assert(is_white_space(s[a]));
    }
}

proof fn lemma_trimmed_start(s: Seq<char>) -> (a: int)
    ensures
        0 <= a <= s.len(),
        trimmed_start(s) == s.subrange(a, s.len() as int),
        blank(s.subrange(0, a)),
        trimmed_start(s).len() > 0 ==> !is_white_space(trimmed_start(s)[0]),
    decreases s.len(),
{
    if s.len() > 0 && is_white_space(s[0]) {
        let rest = s.drop_first();
        let a = lemma_trimmed_start(rest);
        assert(rest.subrange(a, rest.len() as int) =~= s.subrange(a + 1, s.len() as int));
        assert forall|i: int| 0 <= i < a + 1 implies is_white_space(
            #[trigger] s.subrange(0, a + 1)[i],
        ) by {
            if i > 0 {
                assert(rest.subrange(0, a)[i - 1] == s[i]);
            }
        }
        a + 1
    } else {
        assert(s.subrange(0, s.len() as int) =~= s);
        0
    }
}

proof fn lemma_trimmed_end(s: Seq<char>) -> (b: int)
    ensures
        0 <= b <= s.len(),
        trimmed_end(s) == s.subrange(0, b),
        blank(s.subrange(b, s.len() as int)),
        trimmed_end(s).len() > 0 ==> !is_white_space(trimmed_end(s).last()),
    decreases s.len(),
{
    if s.len() > 0 && is_white_space(s.last()) {
        let rest = s.drop_last();
        let b = lemma_trimmed_end(rest);
        assert(rest.subrange(0, b) =~= s.subrange(0, b));
        assert forall|i: int| 0 <= i < s.len() - b implies is_white_space(
            #[trigger] s.subrange(b, s.len() as int)[i],
        ) by {
            if i < rest.len() - b {
                assert(rest.subrange(b, rest.len() as int)[i] == s[b + i]);
            }
        }
        b
    } else {
        assert(s.subrange(0, s.len() as int) =~= s);
        s.len() as int
    }
}

/// A text in small letters is as long as the text, has its other characters, and is its own text in
/// small letters.
pub proof fn law_small_letters(s: Seq<char>)
    ensures
        lowered(s).len() == s.len(),
        lowered(lowered(s)) == lowered(s),
        forall|i: int|
            #![trigger s[i]]
            0 <= i < s.len() ==> {
                &&& !('A' <= lowered(s)[i] <= 'Z')
                &&& !('A' <= s[i] <= 'Z') ==> lowered(s)[i] == s[i]
                &&& 'A' <= s[i] <= 'Z' ==> lowered(s)[i] as u32 - 'a' as u32 == s[i] as u32
                    - 'A' as u32
            },
{
    assert forall|i: int|
        #![trigger s[i]]
        0 <= i < s.len() implies !('A' <= lowered(s)[i] <= 'Z') && (!('A' <= s[i] <= 'Z')
        ==> lowered(s)[i] == s[i]) && ('A' <= s[i] <= 'Z' ==> lowered(s)[i] as u32 - 'a' as u32
        == s[i] as u32 - 'A' as u32) by {
        lemma_lower(s[i]);
    }
    assert(lowered(lowered(s)) =~= lowered(s)) by {
        assert forall|i: int| 0 <= i < s.len() implies lower(lower(s[i])) == lower(s[i]) by {
            lemma_lower(s[i]);
        }
    }
}

proof fn lemma_lower(c: char)
    ensures
        !('A' <= lower(c) <= 'Z'),
        !('A' <= c <= 'Z') ==> lower(c) == c,
        'A' <= c <= 'Z' ==> lower(c) as u32 - 'a' as u32 == c as u32 - 'A' as u32,
{
    if 'A' <= c <= 'Z' {
        let n = c as u32;
        assert(65 <= n <= 90);
        assert((n + 32) as u8 == n + 32);
    }
}

/// A character of markup is written by its name between an ampersand and a semicolon, and every other
/// character as it is.
pub proof fn law_entities(c: char)
    ensures
        c == '<' <==> xml_of(c) == "&lt;"@,
        c == '>' <==> xml_of(c) == "&gt;"@,
        c == '&' <==> xml_of(c) == "&amp;"@,
        c == '"' <==> xml_of(c) == "&quot;"@,
        c == '\'' <==> xml_of(c) == "&apos;"@,
        c == '\'' <==> html_of(c) == "&#39;"@,
        c != '\'' ==> html_of(c) == xml_of(c),
        c != '<' && c != '>' && c != '&' && c != '"' && c != '\'' ==> xml_of(c) == seq![c],
{
    reveal_strlit("&lt;");
    reveal_strlit("&gt;");
    reveal_strlit("&amp;");
    reveal_strlit("&quot;");
    reveal_strlit("&apos;");
    reveal_strlit("&#39;");
    assert("&lt;"@.len() == 4 && "&gt;"@.len() == 4 && "&amp;"@.len() == 5 && "&quot;"@.len() == 6
        && "&apos;"@.len() == 6 && "&#39;"@.len() == 5);
    assert("&lt;"@[1] == 'l' && "&gt;"@[1] == 'g' && "&quot;"@[1] == 'q' && "&apos;"@[1] == 'a'
        && "&amp;"@[1] == 'a' && "&#39;"@[1] == '#');
}

/// Where nothing is to be replaced, a text stays; a part that stands there once is replaced, and what
/// is around it stays.
pub proof fn law_replacing(a: Seq<char>, part: Seq<char>, b: Seq<char>, other: Seq<char>)
    requires
        part.len() > 0,
        first_place(a + part + b, part, 0) == Some(a.len() as int),
        first_place(a + part + b, part, (a.len() + part.len()) as int) is None,
    ensures
        replaced(a + part + b, part, other) == a + other + b,
        !occurs(b, part) ==> replaced(b, part, other) == b,
{
    let s = a + part + b;
    let end = (a.len() + part.len()) as int;
    assert(replaced_from(s, part, other, end) == s.skip(end));
    assert(s.skip(end) =~= b);
    assert(s.subrange(0, a.len() as int) =~= a);
    if !occurs(b, part) {
        lemma_first_place(b, part, 0);
        if let Some(i) = first_place(b, part, 0) {
            assert(occurs_at(b, part, i));
        }
        assert(b.skip(0) =~= b);
    }
}

/// A key that is written on one line gets its lines back; a key with lines stays.
pub proof fn law_keys_get_their_lines(value: Seq<char>)
    ensures
        value.contains('\n') ==> normalized_key(value) == value,
        !occurs(value, "\\n"@) ==> normalized_key(value) == value,
        occurs(value, "\\n"@) && !value.contains('\n') ==> normalized_key(value) == replaced(
            value,
            "\\n"@,
            "\n"@,
        ),
{
}

/// A relative path below a directory is the directory, a slash and the path; an absolute path stays.
pub proof fn law_paths_are_joined(base: Seq<char>, path: Seq<char>)
    ensures
        path.len() > 0 && path[0] == '/' ==> under(base, path) == path,
        base.len() > 0 && base.last() != '/' && (path.len() == 0 || path[0] != '/') ==> under(
            base,
            path,
        ) == base + seq!['/'] + path,
        base.len() > 0 && base.last() == '/' && (path.len() == 0 || path[0] != '/') ==> under(
            base,
            path,
        ) == base + path,
{
    reveal_strlit("/");
    assert("/"@ =~= seq!['/']);
    if path.len() > 0 {
        if path[0] == '/' {
            assert(path.take(1) =~= "/"@);
        }
        if starts(path, "/"@) {
            assert(path.take(1)[0] == '/');
        }
    }
    if base.len() > 0 {
        if base.last() == '/' {
            assert(base.skip(base.len() - 1) =~= "/"@);
        }
        if ends(base, "/"@) {
            assert(base.skip(base.len() - 1)[0] == '/');
        }
    }
}

/// The name of a file below a directory is the last part of its path. Its stem and its extension are
/// what stands before and behind its last dot.
pub proof fn law_file_names(directory: Seq<char>, stem: Seq<char>, extension: Seq<char>)
    requires
        stem.len() > 0,
        !stem.contains('/'),
        !extension.contains('/'),
        !extension.contains('.'),
        extension.len() > 0,
    ensures
        ({
            let name = stem + seq!['.'] + extension;
            let path = directory.push('/') + name;
            &&& file_name_of(path) == Some(name)
            &&& extension_of(path) == Some(extension)
            &&& stem_of(path) == Some(stem)
        }),
{
    reveal_strlit(".");
    reveal_strlit("..");
    let name = stem + seq!['.'] + extension;
    let path = directory.push('/') + name;
    assert(!name.contains('/')) by {
        if name.contains('/') {
            let i = choose|i: int| 0 <= i < name.len() && name[i] == '/';
            if i < stem.len() {
                assert(stem[i] == '/');
            } else if i > stem.len() {
                assert(extension[i - stem.len() - 1] == '/');
            }
        }
    }
    lemma_one_piece(name, '/');
    lemma_pieces_joined(directory, name, '/');
    let parts = pieces(path, '/');
    assert(parts.last() == name);
    assert(parts[parts.len() - 1] == name);
    assert(name.len() >= 3);
    assert("."@.len() == 1 && ".."@.len() == 2);
    assert(last_name(parts, parts.len()) == Some(name));
    lemma_last_dot(name, stem.len() as int, name.len());
    assert(name.skip(stem.len() as int + 1) =~= extension);
    assert(name.take(stem.len() as int) =~= stem);
}

proof fn lemma_last_dot(name: Seq<char>, dot: int, n: nat)
    requires
        0 < dot < n <= name.len(),
        name[dot] == '.',
        forall|i: int| dot < i < name.len() ==> name[i] != '.',
    ensures
        crate::paths::extension_dot(name, n) == Some(dot),
    decreases n,
{
    if n - 1 > dot {
        lemma_last_dot(name, dot, (n - 1) as nat);
    }
}

/// What is rendered for a page stands in a directory of its own, below that of the app: its parts are
/// the safe names of the app, the page and the locale, and the key of the set.
pub proof fn law_page_directories(
    base: Seq<char>,
    app_key: Seq<char>,
    page_key: Seq<char>,
    locale: Seq<char>,
    set: MediaScreenshotSet,
)
    requires
        base.len() > 0,
        base.last() != '/',
        app_key.len() > 0,
        page_key.len() > 0,
        locale.len() > 0,
    ensures
        page_render_dir(base, app_key, page_key, locale, set) == base + seq!['/'] + safe_segment(
            app_key,
        ) + seq!['/'] + "custom_product_pages"@ + seq!['/'] + safe_segment(page_key) + seq!['/']
            + safe_segment(locale) + seq!['/'] + set.config_key_of(),
{
    reveal_strlit("custom_product_pages");
    law_safe_segments(app_key);
    law_safe_segments(page_key);
    law_safe_segments(locale);
    assert(app_key[0] == app_key[0] && app_key[app_key.len() - 1] == app_key.last());
    assert(page_key[0] == page_key[0] && page_key[page_key.len() - 1] == page_key.last());
    assert(locale[0] == locale[0] && locale[locale.len() - 1] == locale.last());
    let a = under(base, safe_segment(app_key));
    law_paths_are_joined(base, safe_segment(app_key));
    assert(a.last() == safe_segment(app_key)[app_key.len() - 1]);
    let b = under(a, "custom_product_pages"@);
    law_paths_are_joined(a, "custom_product_pages"@);
    assert(b.last() == "custom_product_pages"@[19]);
    let c = under(b, safe_segment(page_key));
    law_paths_are_joined(b, safe_segment(page_key));
    assert(c.last() == safe_segment(page_key)[page_key.len() - 1]);
    let d = under(c, safe_segment(locale));
    law_paths_are_joined(c, safe_segment(locale));
    assert(d.last() == safe_segment(locale)[locale.len() - 1]);
    lemma_set_key(set);
    law_paths_are_joined(d, set.config_key_of());
}

proof fn lemma_set_key(set: MediaScreenshotSet)
    ensures
        set.config_key_of().len() > 0,
        set.config_key_of()[0] != '/',
{
    reveal_strlit("iphone");
    reveal_strlit("ipad");
    reveal_strlit("mac");
    reveal_strlit("apple_tv");
    reveal_strlit("vision_pro");
    reveal_strlit("watch");
    reveal_strlit("iphone67");
    reveal_strlit("iphone65");
    reveal_strlit("iphone61");
    reveal_strlit("iphone58");
    reveal_strlit("iphone55");
    reveal_strlit("iphone47");
    reveal_strlit("iphone40");
    reveal_strlit("iphone35");
    reveal_strlit("ipad13");
    reveal_strlit("ipad129");
    reveal_strlit("ipad11");
    reveal_strlit("ipad105");
    reveal_strlit("ipad97");
    reveal_strlit("watch_ultra");
    reveal_strlit("watch_series10");
    reveal_strlit("watch_series7");
    reveal_strlit("watch_series4");
    reveal_strlit("watch_series3");
}

/// A text comes before its continuations, and of two texts that go apart the one with the smaller
/// character comes first.
pub proof fn law_order_of_texts(
    common: Seq<char>,
    a: char,
    b: char,
    first: Seq<char>,
    second: Seq<char>,
)
    ensures
        precedes(common, common.push(a) + first),
        !precedes(common.push(a) + first, common),
        a < b ==> precedes(common.push(a) + first, common.push(b) + second),
        a < b ==> !precedes(common.push(b) + second, common.push(a) + first),
    decreases common.len(),
{
    let x = common.push(a) + first;
    let y = common.push(b) + second;
    if common.len() > 0 {
        let rest = common.drop_first();
        law_order_of_texts(rest, a, b, first, second);
        assert(x.drop_first() =~= rest.push(a) + first);
        assert(y.drop_first() =~= rest.push(b) + second);
        assert(x[0] == common[0] && y[0] == common[0]);
    } else {
        assert(x[0] == a && y[0] == b);
    }
}

/// Developers come before the release, each scope has its own name, and both names are plain words.
pub proof fn law_scopes(scope: Scope)
    ensures
        scope == Scope::Developer <==> scope_name(scope) == "developer"@,
        scope == Scope::Release <==> scope_name(scope) == "release"@,
        Scope::Developer.rank_of() < Scope::Release.rank_of(),
{
    reveal_strlit("developer");
    reveal_strlit("release");
    assert("developer"@.len() == 9 && "release"@.len() == 7);
}

/// Each method has its own name in a request.
pub proof fn law_methods(verb: Verb)
    ensures
        verb == Verb::Get <==> verb.name_of() == "GET"@,
        verb == Verb::Post <==> verb.name_of() == "POST"@,
        verb == Verb::Patch <==> verb.name_of() == "PATCH"@,
        verb == Verb::Delete <==> verb.name_of() == "DELETE"@,
{
    reveal_strlit("GET");
    reveal_strlit("POST");
    reveal_strlit("PATCH");
    reveal_strlit("DELETE");
    assert("GET"@.len() == 3 && "POST"@.len() == 4 && "PATCH"@.len() == 5 && "DELETE"@.len() == 6);
}

/// Each kind of change is told by its own word.
pub proof fn law_change_words(kind: ChangeKind)
    ensures
        kind == ChangeKind::Create <==> kind.word() == "create"@,
        kind == ChangeKind::Update <==> kind.word() == "update"@,
        kind == ChangeKind::Replace <==> kind.word() == "replace"@,
        kind == ChangeKind::Delete <==> kind.word() == "delete"@,
{
    reveal_strlit("create");
    reveal_strlit("update");
    reveal_strlit("replace");
    reveal_strlit("delete");
    assert("create"@[0] == 'c' && "update"@[0] == 'u' && "replace"@[0] == 'r' && "delete"@[0]
        == 'd');
}

/// Each fit is asked for by its own word.
pub proof fn law_fit_words(fit: FrameFit)
    ensures
        fit == FrameFit::Cover <==> fit.name_of() == "cover"@,
        fit == FrameFit::Contain <==> fit.name_of() == "contain"@,
        fit == FrameFit::Fill <==> fit.name_of() == "fill"@,
{
    reveal_strlit("cover");
    reveal_strlit("contain");
    reveal_strlit("fill");
    assert("cover"@.len() == 5 && "contain"@.len() == 7 && "fill"@.len() == 4);
}

/// Hexadecimal digits go from zero to nine and from a to f, and of each byte the higher one comes
/// first.
pub proof fn law_hexadecimal_digits(n: int, m: int, bytes: Seq<u8>, b: u8)
    ensures
        0 <= n < m < 16 ==> hex_digit(n) < hex_digit(m),
        hex_digit(0) == '0',
        hex_digit(9) == '9',
        hex_digit(10) == 'a',
        hex_digit(15) == 'f',
        hex(bytes.push(b)) == hex(bytes).push(hex_digit(b as int / 16)).push(
            hex_digit(b as int % 16),
        ),
{
    assert(bytes.push(b).drop_last() =~= bytes);
}

/// A state starts out with its team and the version that is written here, and with nothing else.
pub proof fn law_new_states_are_empty(team_id: Seq<char>, name: Seq<char>)
    ensures
        empty_state(team_id).team_id == team_id,
        empty_state(team_id).version == STATE_VERSION,
        !empty_state(team_id).bundle_ids.contains_key(name),
        !empty_state(team_id).devices.contains_key(name),
        !empty_state(team_id).certs.contains_key(name),
        !empty_state(team_id).profiles.contains_key(name),
{
}

} // verus!
