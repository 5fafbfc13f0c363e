//! The browser that renders templates.

use vstd::prelude::*;
use vstd::string::*;
use crate::json::{member, Json, JsonView};
use crate::media_render::frame::Viewport;
use crate::paths::{extension_of, join_path, path_extension, path_stem, stem_of, under};
use crate::seal::{base64_bytes, base64_bytes_of};
use crate::text::{cat, cat3, decimal, decimal_text, failure, same, texts, Error};

verus! {

/// A list of texts with one more, unless the list has it.
pub open spec fn with_unique(list: Seq<Seq<char>>, item: Seq<char>) -> Seq<Seq<char>> {
    if list.contains(item) {
        list
    } else {
        list.push(item)
    }
}

/// Adds a text to a list, unless the list has it.
pub fn push_unique_candidate(candidates: &mut Vec<String>, candidate: String)
    ensures
        texts(final(candidates)@) == with_unique(texts(old(candidates)@), candidate@),
{
    let ghost before = texts(candidates@);
    let mut i: usize = 0;
    while i < candidates.len()
        invariant
            i <= candidates.len(),
            texts(candidates@) == before,
            forall|k: int| 0 <= k < i ==> (#[trigger] candidates@[k])@ != candidate@,
        decreases candidates.len() - i,
    {
        if same(candidates[i].as_str(), candidate.as_str()) {
            proof {
                assert(before[i as int] == candidate@);
                assert(before.contains(candidate@));
            }
            return;
        }
        i += 1;
    }
    proof {
        if before.contains(candidate@) {
            let k = choose|k: int| 0 <= k < before.len() && before[k] == candidate@;
            assert(candidates@[k]@ == before[k]);
        }
    }
    candidates.push(candidate);
    proof {
        assert(texts(candidates@) =~= before.push(candidate@));
    }
}

/// The program inside an application directory.
pub open spec fn program_in(path: Seq<char>) -> Option<Seq<char>> {
    if extension_of(path) == Some("app"@) {
        match stem_of(path) {
            Some(stem) => Some(under(under(under(path, "Contents"@), "MacOS"@), stem)),
            None => None,
        }
    } else {
        None
    }
}

/// The program inside an application directory.
pub fn macos_app_bundle_executable(candidate: &str) -> (program: Option<String>)
    ensures
        match program_in(candidate@) {
            Some(path) => program matches Some(found) && found@ == path,
            None => program is None,
        },
{
    match path_extension(candidate) {
        None => None,
        Some(extension) => if !same(extension.as_str(), "app") {
            None
        } else {
            match path_stem(candidate) {
                None => None,
                Some(stem) => Some(
                    join_path(
                        join_path(join_path(candidate, "Contents").as_str(), "MacOS").as_str(),
                        stem.as_str(),
                    ),
                ),
            }
        },
    }
}

/// A list of programs with a path: the program inside it where it is an application directory, then
/// the path itself. An empty path adds nothing.
pub open spec fn with_browser(list: Seq<Seq<char>>, path: Seq<char>) -> Seq<Seq<char>> {
    if path.len() == 0 {
        list
    } else {
        with_unique(
            match program_in(path) {
                Some(program) => with_unique(list, program),
                None => list,
            },
            path,
        )
    }
}

/// Adds a path to a list of programs.
pub fn push_chrome_candidate(candidates: &mut Vec<String>, candidate: &str)
    ensures
        texts(final(candidates)@) == with_browser(texts(old(candidates)@), candidate@),
{
    if candidate.unicode_len() == 0 {
        return;
    }
    if let Some(program) = macos_app_bundle_executable(candidate) {
        push_unique_candidate(candidates, program);
    }
    push_unique_candidate(candidates, candidate.to_owned());
}

/// The names of the browsers' applications.
pub open spec fn browser_names() -> Seq<Seq<char>> {
    seq![
        "Google Chrome"@,
        "Google Chrome Beta"@,
        "Google Chrome Dev"@,
        "Google Chrome Canary"@,
        "Google Chrome for Testing"@,
        "Chromium"@,
    ]
}

/// The program of an application below a directory of applications.
pub open spec fn browser_below(root: Seq<char>, name: Seq<char>) -> Seq<char> {
    under(under(under(under(root, name + ".app"@), "Contents"@), "MacOS"@), name)
}

/// A list of programs with the first `n` browsers below a directory of applications.
pub open spec fn with_browsers(list: Seq<Seq<char>>, root: Seq<char>, n: nat) -> Seq<Seq<char>>
    decreases n,
{
    if n == 0 {
        list
    } else {
        with_unique(
            with_browsers(list, root, (n - 1) as nat),
            browser_below(root, browser_names()[n - 1]),
        )
    }
}

/// A list of programs with the browsers below each of the first `n` directories of applications.
pub open spec fn with_roots(list: Seq<Seq<char>>, roots: Seq<Seq<char>>, n: nat) -> Seq<Seq<char>>
    decreases n,
{
    if n == 0 || n > roots.len() {
        list
    } else {
        with_browsers(
            with_roots(list, roots, (n - 1) as nat),
            roots[n - 1],
            browser_names().len(),
        )
    }
}

fn browser_list() -> (names: Vec<&'static str>)
    ensures
        names@.len() == browser_names().len(),
        forall|i: int| 0 <= i < names@.len() ==> (#[trigger] names@[i])@ == browser_names()[i],
{
    let mut names: Vec<&'static str> = Vec::new();
    names.push("Google Chrome");
    names.push("Google Chrome Beta");
    names.push("Google Chrome Dev");
    names.push("Google Chrome Canary");
    names.push("Google Chrome for Testing");
    names.push("Chromium");
    names
}

/// Adds the browsers below directories of applications to a list of programs.
pub fn push_macos_chrome_app_candidates_from_roots(candidates: &mut Vec<String>, roots: &Vec<String>)
    ensures
        texts(final(candidates)@) == with_roots(
            texts(old(candidates)@),
            texts(roots@),
            roots@.len(),
        ),
{
    let ghost before = texts(candidates@);
    let names = browser_list();
    let mut i: usize = 0;
    while i < roots.len()
        invariant
            i <= roots.len(),
            names@.len() == browser_names().len(),
            forall|k: int| 0 <= k < names@.len() ==> (#[trigger] names@[k])@ == browser_names()[k],
            texts(candidates@) == with_roots(before, texts(roots@), i as nat),
        decreases roots.len() - i,
    {
        let root = roots[i].as_str();
        let ghost list = texts(candidates@);
        proof {
            assert(texts(roots@)[i as int] == root@);
            assert(texts(roots@).len() == roots@.len());
        }
        let mut k: usize = 0;
        while k < names.len()
            invariant
                k <= names.len(),
                names@.len() == browser_names().len(),
                forall|j: int|
                    0 <= j < names@.len() ==> (#[trigger] names@[j])@ == browser_names()[j],
                texts(candidates@) == with_browsers(list, root@, k as nat),
            decreases names.len() - k,
        {
            let name = names[k];
            let bundle = cat(name, ".app");
            let program = join_path(
                join_path(
                    join_path(join_path(root, bundle.as_str()).as_str(), "Contents").as_str(),
                    "MacOS",
                ).as_str(),
                name,
            );
            push_unique_candidate(candidates, program);
            k += 1;
        }
        i += 1;
    }
    proof {
        assert(texts(roots@).len() == roots@.len());
    }
}

/// The directories in which applications are looked for.
pub fn macos_app_roots(home: Option<&str>) -> (roots: Vec<String>)
    ensures
        texts(roots@) == (match home {
            Some(path) => seq!["/Applications"@, under(path@, "Applications"@)],
            None => seq!["/Applications"@],
        }),
{
    let mut roots: Vec<String> = Vec::new();
    roots.push("/Applications".to_owned());
    if let Some(path) = home {
        roots.push(join_path(path, "Applications"));
        proof {
            assert(texts(roots@) =~= seq!["/Applications"@, under(path@, "Applications"@)]);
        }
    } else {
        proof {
            assert(texts(roots@) =~= seq!["/Applications"@]);
        }
    }
    roots
}

/// A list of programs with the first `n` of some names.
pub open spec fn with_names(list: Seq<Seq<char>>, names: Seq<Seq<char>>, n: nat) -> Seq<Seq<char>>
    decreases n,
{
    if n == 0 || n > names.len() {
        list
    } else {
        with_unique(with_names(list, names, (n - 1) as nat), names[n - 1])
    }
}

/// A list of programs with the first `n` of some paths.
pub open spec fn with_paths(list: Seq<Seq<char>>, paths: Seq<Seq<char>>, n: nat) -> Seq<Seq<char>>
    decreases n,
{
    if n == 0 || n > paths.len() {
        list
    } else {
        with_browser(with_paths(list, paths, (n - 1) as nat), paths[n - 1])
    }
}

/// The names under which browsers are started.
pub open spec fn command_names() -> Seq<Seq<char>> {
    seq![
        "google-chrome"@,
        "google-chrome-stable"@,
        "google-chrome-beta"@,
        "google-chrome-unstable"@,
        "google-chrome-canary"@,
        "chromium"@,
        "chromium-browser"@,
        "chrome"@,
    ]
}

/// The variables that tell the path of a browser, in turn.
pub fn chrome_variables() -> (names: Vec<&'static str>)
    ensures
        names@.len() == 5,
        names@[0]@ == "CHROME"@,
        names@[1]@ == "CHROME_BIN"@,
        names@[2]@ == "CHROME_PATH"@,
        names@[3]@ == "GOOGLE_CHROME"@,
        names@[4]@ == "CHROMIUM_BIN"@,
{
    let mut names: Vec<&'static str> = Vec::new();
    names.push("CHROME");
    names.push("CHROME_BIN");
    names.push("CHROME_PATH");
    names.push("GOOGLE_CHROME");
    names.push("CHROMIUM_BIN");
    names
}

/// The programs that are tried as the browser, in turn: the paths that were told, the applications
/// that browsers install, and the names under which they are started.
pub fn chrome_candidates(told: &Vec<String>, roots: &Vec<String>) -> (candidates: Vec<String>)
    ensures
        texts(candidates@) == with_names(
            with_roots(
                with_paths(Seq::empty(), texts(told@), told@.len()),
                texts(roots@),
                roots@.len(),
            ),
            command_names(),
            command_names().len(),
        ),
{
    let mut candidates: Vec<String> = Vec::new();
    let mut i: usize = 0;
    proof {
        assert(texts(candidates@) =~= Seq::<Seq<char>>::empty());
        assert(texts(told@).len() == told@.len());
    }
    while i < told.len()
        invariant
            i <= told.len(),
            texts(told@).len() == told@.len(),
            texts(candidates@) == with_paths(Seq::empty(), texts(told@), i as nat),
        decreases told.len() - i,
    {
        proof {
            assert(texts(told@)[i as int] == told@[i as int]@);
        }
        push_chrome_candidate(&mut candidates, told[i].as_str());
        i += 1;
    }
    push_macos_chrome_app_candidates_from_roots(&mut candidates, roots);
    let ghost list = texts(candidates@);
    push_unique_candidate(&mut candidates, "google-chrome".to_owned());
    push_unique_candidate(&mut candidates, "google-chrome-stable".to_owned());
    push_unique_candidate(&mut candidates, "google-chrome-beta".to_owned());
    push_unique_candidate(&mut candidates, "google-chrome-unstable".to_owned());
    push_unique_candidate(&mut candidates, "google-chrome-canary".to_owned());
    push_unique_candidate(&mut candidates, "chromium".to_owned());
    push_unique_candidate(&mut candidates, "chromium-browser".to_owned());
    push_unique_candidate(&mut candidates, "chrome".to_owned());
    proof {
        let names = command_names();
        assert(names.len() == 8);
        reveal_with_fuel(with_names, 9);
        assert(with_names(list, names, 0) == list);
    }
    candidates
}

/// The message where no browser was found.
pub fn chrome_not_found() -> (error: Error)
    ensures
        error@
            == "Chrome/Chromium was not found; pass --chrome or set CHROME_BIN/CHROME_PATH/CHROME/GOOGLE_CHROME/CHROMIUM_BIN"@,
{
    failure(
        "Chrome/Chromium was not found; pass --chrome or set CHROME_BIN/CHROME_PATH/CHROME/GOOGLE_CHROME/CHROMIUM_BIN".to_owned(),
    )
}

/// The options with which the browser is started.
pub open spec fn browser_options(port: u16, user_data_dir: Seq<char>, viewport: Viewport) -> Seq<
    Seq<char>,
> {
    seq![
        "--headless=new"@,
        "--disable-background-networking"@,
        "--disable-component-update"@,
        "--disable-domain-reliability"@,
        "--disable-extensions"@,
        "--disable-gpu"@,
        "--disable-sync"@,
        "--disable-features=MediaRouter,OptimizationHints,Translate"@,
        "--hide-scrollbars"@,
        "--metrics-recording-only"@,
        "--no-default-browser-check"@,
        "--no-first-run"@,
        "--no-service-autorun"@,
        "--remote-debugging-address=127.0.0.1"@,
        "--remote-debugging-port="@ + decimal(port as nat),
        "--force-device-scale-factor=1"@,
        "--user-data-dir="@ + user_data_dir,
        "--window-size="@ + decimal(viewport.width as nat) + ","@ + decimal(
            viewport.height as nat,
        ),
        "about:blank"@,
    ]
}

/// The options with which the browser is started.
pub fn chrome_options(port: u16, user_data_dir: &str, viewport: Viewport) -> (options: Vec<String>)
    ensures
        texts(options@) == browser_options(port, user_data_dir@, viewport),
{
    let mut options: Vec<String> = Vec::new();
    options.push("--headless=new".to_owned());
    options.push("--disable-background-networking".to_owned());
    options.push("--disable-component-update".to_owned());
    options.push("--disable-domain-reliability".to_owned());
    options.push("--disable-extensions".to_owned());
    options.push("--disable-gpu".to_owned());
    options.push("--disable-sync".to_owned());
    options.push("--disable-features=MediaRouter,OptimizationHints,Translate".to_owned());
    options.push("--hide-scrollbars".to_owned());
    options.push("--metrics-recording-only".to_owned());
    options.push("--no-default-browser-check".to_owned());
    options.push("--no-first-run".to_owned());
    options.push("--no-service-autorun".to_owned());
    options.push("--remote-debugging-address=127.0.0.1".to_owned());
    options.push(cat("--remote-debugging-port=", decimal_text(port as u64).as_str()));
    options.push("--force-device-scale-factor=1".to_owned());
    options.push(cat("--user-data-dir=", user_data_dir));
    options.push(
        cat3("--window-size=", decimal_text(viewport.width as u64).as_str(), ",").concat(
            decimal_text(viewport.height as u64).as_str(),
        ),
    );
    options.push("about:blank".to_owned());
    proof {
        assert(texts(options@) =~= browser_options(port, user_data_dir@, viewport));
    }
    options
}

/// The address of a page of the browser.
pub open spec fn page_address(target: JsonView) -> Option<Seq<char>> {
    match (member(target, "type"@), member(target, "webSocketDebuggerUrl"@)) {
        (Some(JsonView::Text(kind)), Some(JsonView::Text(address))) => if kind == "page"@ {
            Some(address)
        } else {
            None
        },
        _ => None,
    }
}

/// The address of the first page from place `i` on.
pub open spec fn first_page(targets: Seq<JsonView>, i: int) -> Option<Seq<char>>
    decreases targets.len() - i,
{
    if i < 0 || i >= targets.len() {
        None
    } else {
        match page_address(targets[i]) {
            Some(address) => Some(address),
            None => first_page(targets, i + 1),
        }
    }
}

/// The address of the first page of the browser.
pub fn page_target(targets: &Json) -> (address: Option<String>)
    ensures
        match targets@ {
            JsonView::Array(items) => match first_page(items, 0) {
                Some(found) => address matches Some(text) && text@ == found,
                None => address is None,
            },
            _ => address is None,
        },
{
    match targets {
        Json::Array(items) => {
            let ghost views = targets@->Array_0;
            let mut i: usize = 0;
            while i < items.len()
                invariant
                    i <= items.len(),
                    targets matches Json::Array(own) && own == items,
                    views == targets@->Array_0,
                    views.len() == items.len(),
                    first_page(views, 0) == first_page(views, i as int),
                decreases items.len() - i,
            {
                let target = &items[i];
                proof {
                    assert(views[i as int] == target@);
                }
                if let Some(Json::Text(kind)) = target.get("type") {
                    if let Some(Json::Text(found)) = target.get("webSocketDebuggerUrl") {
                        if same(kind.as_str(), "page") {
                            return Some(found.clone());
                        }
                    }
                }
                i += 1;
            }
            None
        },
        _ => None,
    }
}

/// Whether a message of the browser answers the command with a number.
pub fn answers_command(message: &Json, id: u64) -> (result: bool)
    ensures
        result == (member(message@, "id"@) == Some(JsonView::Number(decimal(id as nat)))),
{
    match message.get("id") {
        Some(Json::Number(number)) => same(number.as_str(), decimal_text(id).as_str()),
        _ => false,
    }
}

/// Whether a message of the browser tells of an event.
pub fn tells_event(message: &Json, method: &str) -> (result: bool)
    ensures
        result == (member(message@, "method"@) == Some(JsonView::Text(method@))),
{
    match message.get("method") {
        Some(Json::Text(name)) => same(name.as_str(), method),
        _ => false,
    }
}

/// The bytes of a screenshot, by the answer of the browser.
pub open spec fn screenshot_of(result: JsonView) -> Result<Seq<u8>, Seq<char>> {
    match member(result, "data"@) {
        Some(JsonView::Text(data)) => match base64_bytes_of(data) {
            Some(bytes) => Ok(bytes),
            None => Err("failed to decode Chrome screenshot"@),
        },
        _ => Err("Chrome did not return screenshot data"@),
    }
}

/// The bytes of a screenshot, by the answer of the browser.
pub fn screenshot_bytes(answer: &Json) -> (result: Result<Vec<u8>, Error>)
    ensures
        match screenshot_of(answer@) {
            Ok(bytes) => result matches Ok(found) && found@ == bytes,
            Err(message) => result matches Err(error) && error@ == message,
        },
{
    match answer.get("data") {
        Some(Json::Text(data)) => match base64_bytes(data.as_str()) {
            Some(bytes) => Ok(bytes),
            None => Err(failure("failed to decode Chrome screenshot".to_owned())),
        },
        _ => Err(failure("Chrome did not return screenshot data".to_owned())),
    }
}

} // verus!
