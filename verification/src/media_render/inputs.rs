//! The files that are rendered.

use vstd::prelude::*;
use vstd::string::*;
use crate::config::{MediaPathList, MediaScreenshotRenderSpec};
use crate::media_render::preview::{lower_extension, small_extension};
use crate::media_render::template::{HtmlTemplate, TemplateInstance};
use crate::paths::{join_path, path_stem, stem_of, under};
use crate::text::{
    cat3, decimal, decimal_text, due_if, earlier, failure, fails_as, first_message, owned, same,
    texts, Error,
};

verus! {

/// What a file is used as.
#[derive(Debug, Clone, Copy, PartialEq, Eq, Structural)]
pub enum InputKind {
    Template,
    Screen,
}

impl InputKind {
    /// How messages name a file.
    pub open spec fn label_of(self) -> Seq<char> {
        match self {
            InputKind::Template => "template "@,
            InputKind::Screen => "screen image "@,
        }
    }

    fn label(self) -> (label: &'static str)
        ensures
            label@ == self.label_of(),
    {
        match self {
            InputKind::Template => "template ",
            InputKind::Screen => "screen image ",
        }
    }

    /// A file with such a name can be used.
    pub open spec fn suits(self, path: Seq<char>) -> bool {
        match small_extension(path) {
            None => false,
            Some(extension) => match self {
                InputKind::Template => extension == "html"@,
                InputKind::Screen => extension == "png"@ || extension == "jpg"@ || extension
                    == "jpeg"@ || extension == "webp"@,
            },
        }
    }

    /// What messages say of other files.
    pub open spec fn demand(self) -> Seq<char> {
        match self {
            InputKind::Template => " must be an .html file"@,
            InputKind::Screen => " must be .png, .jpg, .jpeg, or .webp"@,
        }
    }

    /// What messages say where there is no file.
    pub open spec fn absence(self) -> Seq<char> {
        match self {
            InputKind::Template => "media render input did not match any HTML files"@,
            InputKind::Screen => "--screen did not match any image files"@,
        }
    }

    /// Whether a file with such a name can be used.
    pub fn keeps(self, path: &str) -> (result: bool)
        ensures
            result == self.suits(path@),
    {
        match lower_extension(path) {
            None => false,
            Some(found) => {
                let extension = found.as_str();
                match self {
                    InputKind::Template => same(extension, "html"),
                    InputKind::Screen => same(extension, "png") || same(extension, "jpg") || same(
                        extension,
                        "jpeg",
                    ) || same(extension, "webp"),
                }
            },
        }
    }
}

/// Whether a file can be put into a frame.
pub fn is_screen_image_path(path: &str) -> (result: bool)
    ensures
        result == InputKind::Screen.suits(path@),
{
    InputKind::Screen.keeps(path)
}

/// A file, and what the file system tells of it.
#[derive(Debug)]
pub struct InputFile {
    pub path: String,
    pub exists: bool,
    pub is_file: bool,
    /// The path without links and dots, or why there is none.
    pub canonical: Result<String, Error>,
}

/// The path of a file without links and dots.
pub open spec fn canonical_of(file: InputFile) -> Seq<char> {
    match file.canonical {
        Ok(path) => path@,
        Err(_) => Seq::empty(),
    }
}

/// The file stands among the first `i` files already.
pub open spec fn listed_before(files: Seq<InputFile>, i: int) -> bool {
    exists|j: int| 0 <= j < i && canonical_of(#[trigger] files[j]) == canonical_of(files[i])
}

/// What is wrong with a file.
pub open spec fn input_message(
    files: Seq<InputFile>,
    kind: InputKind,
    i: int,
) -> Option<Seq<char>> {
    let file = files[i];
    let label = kind.label_of();
    earlier(
        due_if(!file.exists, label + file.path@ + " does not exist"@),
        earlier(
            due_if(!file.is_file, label + file.path@ + " is not a file"@),
            earlier(
                due_if(!kind.suits(file.path@), label + file.path@ + kind.demand()),
                match file.canonical {
                    Err(error) => Some(error@),
                    Ok(path) => earlier(
                        due_if(
                            listed_before(files, i),
                            label + path@ + " is listed more than once"@,
                        ),
                        due_if(
                            kind is Template && stem_of(path@) is None,
                            label + path@ + " has no UTF-8 file stem"@,
                        ),
                    ),
                },
            ),
        ),
    )
}

/// What is wrong with each file.
pub open spec fn input_checks(files: Seq<InputFile>, kind: InputKind) -> spec_fn(int) -> Option<
    Seq<char>,
> {
    |i: int| input_message(files, kind, i)
}

/// What is wrong with files.
pub open spec fn inputs_message(files: Seq<InputFile>, kind: InputKind) -> Option<Seq<char>> {
    earlier(
        due_if(files.len() == 0, kind.absence()),
        first_message(input_checks(files, kind), 0, files.len() as int),
    )
}

fn is_listed(files: &Vec<InputFile>, i: usize, path: &str) -> (result: bool)
    requires
        i < files@.len(),
        path@ == canonical_of(files@[i as int]),
        forall|j: int| 0 <= j < i ==> (#[trigger] files@[j]).canonical is Ok,
    ensures
        result == listed_before(files@, i as int),
{
    let mut j: usize = 0;
    while j < i
        invariant
            j <= i < files@.len(),
            path@ == canonical_of(files@[i as int]),
            forall|k: int| 0 <= k < i ==> (#[trigger] files@[k]).canonical is Ok,
            forall|k: int| 0 <= k < j ==> canonical_of(#[trigger] files@[k]) != path@,
        decreases i - j,
    {
        if let Ok(other) = &files[j].canonical {
            if same(other.as_str(), path) {
                proof {
                    assert(canonical_of(files@[j as int]) == canonical_of(files@[i as int]));
                }
                return true;
            }
        }
        j += 1;
    }
    false
}

fn check_input(files: &Vec<InputFile>, kind: InputKind, i: usize) -> (result: Result<(), Error>)
    requires
        i < files@.len(),
        forall|j: int| 0 <= j < i ==> (#[trigger] files@[j]).canonical is Ok,
    ensures
        fails_as(result, input_message(files@, kind, i as int)),
{
    let file = &files[i];
    let path = file.path.as_str();
    if !file.exists {
        return Err(failure(cat3(kind.label(), path, " does not exist")));
    }
    if !file.is_file {
        return Err(failure(cat3(kind.label(), path, " is not a file")));
    }
    if !kind.keeps(path) {
        let demand = match kind {
            InputKind::Template => " must be an .html file",
            InputKind::Screen => " must be .png, .jpg, .jpeg, or .webp",
        };
        return Err(failure(cat3(kind.label(), path, demand)));
    }
    match &file.canonical {
        Err(error) => Err(failure(error.message.clone())),
        Ok(found) => {
            if is_listed(files, i, found.as_str()) {
                return Err(failure(cat3(kind.label(), found.as_str(), " is listed more than once")));
            }
            if kind == InputKind::Template && path_stem(found.as_str()).is_none() {
                return Err(failure(cat3(kind.label(), found.as_str(), " has no UTF-8 file stem")));
            }
            Ok(())
        },
    }
}

/// Checks files: each of them is there once, is a file, and has a name that suits.
pub fn check_inputs(files: &Vec<InputFile>, kind: InputKind) -> (result: Result<(), Error>)
    ensures
        fails_as(result, inputs_message(files@, kind)),
        result is Ok ==> forall|j: int|
            0 <= j < files@.len() ==> input_message(files@, kind, j) is None
                && (#[trigger] files@[j]).canonical is Ok,
{
    if files.len() == 0 {
        let absence = match kind {
            InputKind::Template => "media render input did not match any HTML files",
            InputKind::Screen => "--screen did not match any image files",
        };
        return Err(failure(absence.to_owned()));
    }
    let ghost checks = input_checks(files@, kind);
    let ghost n = files@.len() as int;
    let mut i: usize = 0;
    while i < files.len()
        invariant
            i <= files.len(),
            n == files@.len() > 0,
            checks == input_checks(files@, kind),
            first_message(checks, 0, n) == first_message(checks, i as int, n),
            forall|j: int|
                0 <= j < i ==> input_message(files@, kind, j) is None && (
                #[trigger] files@[j]).canonical is Ok,
        decreases files.len() - i,
    {
        if let Err(error) = check_input(files, kind, i) {
            proof {
                assert(checks(i as int) == Some(error@));
            }
            return Err(error);
        }
        proof {
            assert(checks(i as int) is None);
        }
        i += 1;
    }
    Ok(())
}

/// What a template is.
pub open spec fn template_of(file: InputFile, template: HtmlTemplate) -> bool {
    &&& template.path@ == canonical_of(file)
    &&& stem_of(template.path@) == Some(template.id@)
}

/// The templates that are rendered. A template is named by its file without the extension.
pub fn resolve_templates(files: &Vec<InputFile>) -> (result: Result<Vec<HtmlTemplate>, Error>)
    ensures
        match inputs_message(files@, InputKind::Template) {
            Some(message) => result matches Err(error) && error@ == message,
            None => result matches Ok(templates) && templates@.len() == files@.len() && forall|
                i: int,
            |
                0 <= i < files@.len() ==> template_of(files@[i], #[trigger] templates@[i]),
        },
{
    if let Err(error) = check_inputs(files, InputKind::Template) {
        return Err(error);
    }
    let mut templates: Vec<HtmlTemplate> = Vec::new();
    let mut i: usize = 0;
    while i < files.len()
        invariant
            i <= files.len(),
            templates@.len() == i,
            forall|j: int|
                0 <= j < files@.len() ==> input_message(files@, InputKind::Template, j) is None && (
                #[trigger] files@[j]).canonical is Ok,
            forall|k: int| 0 <= k < i ==> template_of(files@[k], #[trigger] templates@[k]),
        decreases files.len() - i,
    {
        if let Ok(path) = &files[i].canonical {
            if let Some(id) = path_stem(path.as_str()) {
                templates.push(HtmlTemplate { path: path.clone(), id });
            }
        }
        i += 1;
    }
    Ok(templates)
}

/// The images that are put into frames.
pub fn resolve_screen_images(files: &Vec<InputFile>) -> (result: Result<Vec<String>, Error>)
    ensures
        match inputs_message(files@, InputKind::Screen) {
            Some(message) => result matches Err(error) && error@ == message,
            None => result matches Ok(images) && texts(images@) == files@.map_values(
                |file: InputFile| canonical_of(file),
            ),
        },
{
    if let Err(error) = check_inputs(files, InputKind::Screen) {
        return Err(error);
    }
    let mut images: Vec<String> = Vec::new();
    let mut i: usize = 0;
    while i < files.len()
        invariant
            i <= files.len(),
            images@.len() == i,
            forall|j: int|
                0 <= j < files@.len() ==> input_message(files@, InputKind::Screen, j) is None && (
                #[trigger] files@[j]).canonical is Ok,
            forall|k: int| 0 <= k < i ==> (#[trigger] images@[k])@ == canonical_of(files@[k]),
        decreases files.len() - i,
    {
        if let Ok(path) = &files[i].canonical {
            images.push(path.clone());
        }
        i += 1;
    }
    proof {
        assert(texts(images@) =~= files@.map_values(|file: InputFile| canonical_of(file)));
    }
    Ok(images)
}

/// What is wrong with images that are given with or without a frame.
pub open spec fn screens_message(given: bool, framed: bool) -> Option<Seq<char>> {
    if !framed {
        due_if(given, "--screen can only be used together with --frame"@)
    } else {
        due_if(!given, "--frame requires --screen IMAGE_OR_GLOB"@)
    }
}

/// Checks that images are given exactly where there is a frame.
pub fn check_screen_inputs(given: bool, framed: bool) -> (result: Result<(), Error>)
    ensures
        fails_as(result, screens_message(given, framed)),
{
    if !framed {
        if given {
            return Err(failure("--screen can only be used together with --frame".to_owned()));
        }
    } else if !given {
        return Err(failure("--frame requires --screen IMAGE_OR_GLOB".to_owned()));
    }
    Ok(())
}

/// The message of images that cannot be shared out among the templates.
pub open spec fn uneven_message(screens: nat, templates: nat) -> Seq<char> {
    "--screen resolved "@ + decimal(screens) + " image(s), but --input resolved "@ + decimal(
        templates,
    )

            + " HTML template(s); pass one screen for all templates or the same number of screens as templates"@
}

/// The template stands in its place, with its image: the only one, or the one of the same place.
pub open spec fn instance_of(
    instance: TemplateInstance,
    templates: Seq<HtmlTemplate>,
    screens: Option<Vec<String>>,
    i: int,
) -> bool {
    &&& instance.template.path@ == templates[i].path@
    &&& instance.template.id@ == templates[i].id@
    &&& owned(instance.screen) == (match screens {
        None => None,
        Some(images) => Some(
            if images@.len() == 1 {
                images@[0]@
            } else {
                images@[i]@
            },
        ),
    })
}

/// The templates with their images; `None` where there is no frame.
pub fn resolve_template_instances(
    templates: &Vec<HtmlTemplate>,
    screens: &Option<Vec<String>>,
) -> (result: Result<Vec<TemplateInstance>, Error>)
    ensures
        if screens matches Some(images) && images@.len() != 1 && images@.len()
            != templates@.len() {
            result matches Err(error) && error@ == uneven_message(
                screens->0@.len(),
                templates@.len(),
            )
        } else {
            result matches Ok(instances) && instances@.len() == templates@.len() && forall|i: int|
                0 <= i < templates@.len() ==> instance_of(
                    #[trigger] instances@[i],
                    templates@,
                    *screens,
                    i,
                )
        },
{
    if let Some(images) = screens {
        if images.len() != 1 && images.len() != templates.len() {
            return Err(
                failure(
                    cat3(
                        "--screen resolved ",
                        decimal_text(images.len() as u64).as_str(),
                        " image(s), but --input resolved ",
                    ).concat(decimal_text(templates.len() as u64).as_str()).concat(
                        " HTML template(s); pass one screen for all templates or the same number of screens as templates",
                    ),
                ),
            );
        }
    }
    let mut instances: Vec<TemplateInstance> = Vec::new();
    let mut i: usize = 0;
    while i < templates.len()
        invariant
            i <= templates.len(),
            instances@.len() == i,
            screens matches Some(images) ==> images@.len() == 1 || images@.len()
                == templates@.len(),
            forall|k: int|
                0 <= k < i ==> instance_of(#[trigger] instances@[k], templates@, *screens, k),
        decreases templates.len() - i,
    {
        let template = HtmlTemplate {
            path: templates[i].path.clone(),
            id: templates[i].id.clone(),
        };
        let screen = match screens {
            None => None,
            Some(images) => Some(
                if images.len() == 1 {
                    images[0].clone()
                } else {
                    images[i].clone()
                },
            ),
        };
        instances.push(TemplateInstance { template, screen });
        i += 1;
    }
    Ok(instances)
}

/// A path of the configuration, from its directory.
pub fn resolve_config_path(config_dir: &str, path: &str) -> (result: String)
    ensures
        result@ == under(config_dir@, path@),
{
    join_path(config_dir, path)
}

/// The paths of a list, from the directory of the configuration.
pub fn resolve_config_path_list(config_dir: &str, list: &MediaPathList) -> (paths: Vec<String>)
    ensures
        texts(paths@) == (match list {
            MediaPathList::One(path) => seq![under(config_dir@, path@)],
            MediaPathList::Many(all) => texts(all@).map_values(
                |path: Seq<char>| under(config_dir@, path),
            ),
        }),
{
    let mut paths: Vec<String> = Vec::new();
    match list {
        MediaPathList::One(path) => {
            paths.push(join_path(config_dir, path.as_str()));
            proof {
                assert(texts(paths@) =~= seq![under(config_dir@, path@)]);
            }
        },
        MediaPathList::Many(all) => {
            let mut i: usize = 0;
            while i < all.len()
                invariant
                    i <= all.len(),
                    paths@.len() == i,
                    forall|k: int|
                        0 <= k < i ==> (#[trigger] paths@[k])@ == under(config_dir@, all@[k]@),
                decreases all.len() - i,
            {
                paths.push(join_path(config_dir, all[i].as_str()));
                i += 1;
            }
            proof {
                assert(texts(paths@) =~= texts(all@).map_values(
                    |path: Seq<char>| under(config_dir@, path),
                ));
            }
        },
    }
    paths
}

/// Where rendered screenshots are written: into the directory of the configuration's own, else into
/// the given one.
pub fn resolve_config_render_output_dir(
    config_dir: &str,
    render: &MediaScreenshotRenderSpec,
    fallback_output_dir: &str,
) -> (path: String)
    ensures
        path@ == (match render.output_dir {
            Some(own) => under(config_dir@, own@),
            None => fallback_output_dir@,
        }),
{
    match &render.output_dir {
        Some(own) => join_path(config_dir, own.as_str()),
        None => fallback_output_dir.to_owned(),
    }
}

/// The message of screenshots that are rendered without texts.
pub fn missing_localization(locale: &str) -> (error: Error)
    ensures
        error@ == "rendered screenshots for locale "@ + locale@
            + " require version.localizations."@ + locale@,
{
    failure(
        cat3(
            "rendered screenshots for locale ",
            locale,
            " require version.localizations.",
        ).concat(locale),
    )
}

} // verus!
