//! Paths as text, with `/` between their components.

use vstd::prelude::*;
use vstd::string::*;
use crate::text::{cat, cat3, ends, ends_with, pieces, same, split, starts, starts_with, texts, to_chars};

verus! {

/// Whether a path begins at the root.
pub open spec fn absolute(path: Seq<char>) -> bool {
    starts(path, "/"@)
}

/// `path` as seen from the directory `base`.
pub open spec fn under(base: Seq<char>, path: Seq<char>) -> Seq<char> {
    if absolute(path) || base.len() == 0 {
        path
    } else if ends(base, "/"@) {
        base + path
    } else {
        base + "/"@ + path
    }
}

/// `path` as seen from the directory `base`.
pub fn join_path(base: &str, path: &str) -> (result: String)
    ensures
        result@ == under(base@, path@),
{
    if starts_with(path, "/") || base.is_empty() {
        path.to_owned()
    } else if ends_with(base, "/") {
        cat(base, path)
    } else {
        cat3(base, "/", path)
    }
}

/// The last of the pieces that names something, going back from `n`.
pub open spec fn last_name(parts: Seq<Seq<char>>, n: nat) -> Option<Seq<char>>
    decreases n,
{
    if n == 0 || n > parts.len() {
        None
    } else if parts[n - 1].len() == 0 || parts[n - 1] == "."@ {
        last_name(parts, (n - 1) as nat)
    } else if parts[n - 1] == ".."@ {
        None
    } else {
        Some(parts[n - 1])
    }
}

/// The name of the file that a path leads to. The root, the directory itself and a parent
/// directory have none.
pub open spec fn file_name_of(path: Seq<char>) -> Option<Seq<char>> {
    last_name(pieces(path, '/'), pieces(path, '/').len())
}

/// The name of the file that a path leads to.
pub fn path_file_name(path: &str) -> (name: Option<String>)
    ensures
        match name {
            Some(text) => file_name_of(path@) == Some(text@),
            None => file_name_of(path@) is None,
        },
{
    let parts = split(path, '/');
    let mut n: usize = parts.len();
    while n > 0
        invariant
            n <= parts.len(),
            texts(parts@) == pieces(path@, '/'),
            file_name_of(path@) == last_name(pieces(path@, '/'), n as nat),
        decreases n,
    {
        proof {
            assert(pieces(path@, '/')[n - 1] == parts@[n - 1]@);
        }
        let part = parts[n - 1].as_str();
        if !(part.is_empty() || same(part, ".")) {
            if same(part, "..") {
                return None;
            }
            return Some(part.to_owned());
        }
        n -= 1;
    }
    None
}

/// The place of the last dot that is not the first character.
pub open spec fn extension_dot(name: Seq<char>, n: nat) -> Option<int>
    decreases n,
{
    if n <= 1 || n > name.len() {
        None
    } else if name[n - 1] == '.' {
        Some(n - 1)
    } else {
        extension_dot(name, (n - 1) as nat)
    }
}

/// What follows the last dot of a file name.
pub open spec fn extension_of(path: Seq<char>) -> Option<Seq<char>> {
    match file_name_of(path) {
        Some(name) => match extension_dot(name, name.len()) {
            Some(dot) => Some(name.skip(dot + 1)),
            None => None,
        },
        None => None,
    }
}

/// What comes before the last dot of a file name, or the whole name.
pub open spec fn stem_of(path: Seq<char>) -> Option<Seq<char>> {
    match file_name_of(path) {
        Some(name) => match extension_dot(name, name.len()) {
            Some(dot) => Some(name.take(dot)),
            None => Some(name),
        },
        None => None,
    }
}

fn find_extension_dot(name: &str) -> (dot: Option<usize>)
    ensures
        match dot {
            Some(i) => extension_dot(name@, name@.len()) == Some(i as int) && i < name@.len(),
            None => extension_dot(name@, name@.len()) is None,
        },
{
    let chars = to_chars(name);
    let mut n: usize = chars.len();
    while n > 1
        invariant
            n <= chars.len(),
            chars@ == name@,
            extension_dot(name@, name@.len()) == extension_dot(name@, n as nat),
        decreases n,
    {
        if chars[n - 1] == '.' {
            return Some(n - 1);
        }
        n -= 1;
    }
    None
}

/// What follows the last dot of a file name.
pub fn path_extension(path: &str) -> (extension: Option<String>)
    ensures
        match extension {
            Some(text) => extension_of(path@) == Some(text@),
            None => extension_of(path@) is None,
        },
{
    match path_file_name(path) {
        Some(name) => match find_extension_dot(name.as_str()) {
            Some(dot) => {
                let n: usize = name.as_str().unicode_len();
                let rest = name.as_str().substring_char(dot + 1, n);
                proof {
                    assert(rest@ =~= name@.skip(dot + 1));
                }
                Some(rest.to_owned())
            },
            None => None,
        },
        None => None,
    }
}

/// What comes before the last dot of a file name, or the whole name.
pub fn path_stem(path: &str) -> (stem: Option<String>)
    ensures
        match stem {
            Some(text) => stem_of(path@) == Some(text@),
            None => stem_of(path@) is None,
        },
{
    match path_file_name(path) {
        Some(name) => match find_extension_dot(name.as_str()) {
            Some(dot) => {
                let rest = name.as_str().substring_char(0, dot);
                proof {
                    assert(rest@ =~= name@.take(dot as int));
                }
                Some(rest.to_owned())
            },
            None => Some(name),
        },
        None => None,
    }
}

} // verus!
