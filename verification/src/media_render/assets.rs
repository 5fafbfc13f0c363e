//! Device frames that are kept in a cache.

use vstd::prelude::*;
use vstd::string::*;
use crate::app_store::upload::{hex, md5_hex, md5_of};
use crate::media_render::percent::{percent_encode, percent_encoded};
use crate::paths::{join_path, under};
use crate::text::{
    blank, cat, cat3, contains, debug_form, debug_text, decimal, decimal_text, failure, fails_as,
    due_if, earlier, is_blank, occurs, same, split, starts, starts_with, strip_end,
    stripped_end, pieces, texts, Error,
};

verus! {

/// Where device frames come from if the variable does not tell.
pub const DEFAULT_DEVICE_FRAMES_URL: &'static str = "https://orbitstorage.dev/assets/device-frames";

/// The variable that tells where device frames come from.
pub const DEVICE_FRAMES_URL_ENV: &'static str = "ASC_SYNC_DEVICE_FRAMES_URL";

/// A file of the list of device frames.
#[derive(Debug)]
pub struct FrameAssetManifestFile {
    pub path: String,
    pub size: u64,
    pub md5: String,
}

/// What a file of the list of device frames holds.
pub struct AssetView {
    pub path: Seq<char>,
    pub size: u64,
    pub md5: Seq<char>,
}

impl View for FrameAssetManifestFile {
    type V = AssetView;

    open spec fn view(&self) -> AssetView {
        AssetView { path: self.path@, size: self.size, md5: self.md5@ }
    }
}

impl FrameAssetManifestFile {
    fn copy(&self) -> (other: FrameAssetManifestFile)
        ensures
            other@ == self@,
    {
        FrameAssetManifestFile { path: self.path.clone(), size: self.size, md5: self.md5.clone() }
    }
}

/// The list of device frames.
#[derive(Debug)]
pub struct FrameAssetManifest {
    pub files: Vec<FrameAssetManifestFile>,
}

/// The first file from place `i` on with one of two paths.
pub open spec fn asset_at(
    files: Seq<FrameAssetManifestFile>,
    path: Seq<char>,
    other: Seq<char>,
    i: int,
) -> Option<AssetView>
    decreases files.len() - i,
{
    if i < 0 || i >= files.len() {
        None
    } else if files[i].path@ == path || files[i].path@ == other {
        Some(files[i]@)
    } else {
        asset_at(files, path, other, i + 1)
    }
}

fn find_asset(files: &Vec<FrameAssetManifestFile>, path: &str, other: &str) -> (asset: Option<
    FrameAssetManifestFile,
>)
    ensures
        match asset_at(files@, path@, other@, 0) {
            Some(view) => asset matches Some(found) && found@ == view,
            None => asset is None,
        },
{
    let mut i: usize = 0;
    while i < files.len()
        invariant
            i <= files.len(),
            asset_at(files@, path@, other@, 0) == asset_at(files@, path@, other@, i as int),
        decreases files.len() - i,
    {
        if same(files[i].path.as_str(), path) || same(files[i].path.as_str(), other) {
            return Some(files[i].copy());
        }
        i += 1;
    }
    None
}

/// A list of the file, if there is one.
pub open spec fn listed(asset: Option<AssetView>) -> Seq<AssetView> {
    match asset {
        Some(view) => seq![view],
        None => seq![],
    }
}

/// The files that a device frame needs: what is known of all frames and of their sizes, where the
/// list has it, and the frame's own image.
pub open spec fn needed_assets(files: Seq<FrameAssetManifestFile>, frame_name: Seq<char>) -> Result<
    Seq<AssetView>,
    Seq<char>,
> {
    match asset_at(files, frame_name + ".png"@, frame_name + ".PNG"@, 0) {
        None => Err(
            "device frame "@ + debug_form(frame_name)
                + " was not found in remote device frame manifest"@,
        ),
        Some(image) => Ok(
            (listed(asset_at(files, "Frames.json"@, "Frames.json"@, 0)) + listed(
                asset_at(files, "Sizes.json"@, "Sizes.json"@, 0),
            )).push(image),
        ),
    }
}

/// The views of files.
pub open spec fn asset_views(assets: Seq<FrameAssetManifestFile>) -> Seq<AssetView> {
    assets.map_values(|asset: FrameAssetManifestFile| asset@)
}

/// The files that a device frame needs.
pub fn required_frame_assets(manifest: &FrameAssetManifest, frame_name: &str) -> (result: Result<
    Vec<FrameAssetManifestFile>,
    Error,
>)
    ensures
        match needed_assets(manifest.files@, frame_name@) {
            Ok(views) => result matches Ok(assets) && asset_views(assets@) == views,
            Err(message) => result matches Err(error) && error@ == message,
        },
{
    let mut assets: Vec<FrameAssetManifestFile> = Vec::new();
    if let Some(asset) = find_asset(&manifest.files, "Frames.json", "Frames.json") {
        assets.push(asset);
    }
    if let Some(asset) = find_asset(&manifest.files, "Sizes.json", "Sizes.json") {
        assets.push(asset);
    }
    let png = cat(frame_name, ".png");
    let uppercase_png = cat(frame_name, ".PNG");
    match find_asset(&manifest.files, png.as_str(), uppercase_png.as_str()) {
        None => Err(
            failure(
                cat3(
                    "device frame ",
                    debug_text(frame_name).as_str(),
                    " was not found in remote device frame manifest",
                ),
            ),
        ),
        Some(asset) => {
            assets.push(asset);
            proof {
                let first = listed(asset_at(manifest.files@, "Frames.json"@, "Frames.json"@, 0));
                let second = listed(asset_at(manifest.files@, "Sizes.json"@, "Sizes.json"@, 0));
                assert(asset_views(assets@) =~= (first + second).push(asset@));
            }
            Ok(assets)
        },
    }
}

/// A step of a path that could lead out of a directory, or nowhere.
pub open spec fn stray_step(step: Seq<char>) -> bool {
    step.len() == 0 || step == "."@ || step == ".."@
}

/// What is wrong with a path below the cache.
pub open spec fn cache_path_message(path: Seq<char>) -> Option<Seq<char>> {
    earlier(
        due_if(path.len() == 0, "device frame asset path cannot be empty"@),
        earlier(
            due_if(
                starts(path, "/"@) || occurs(path, "\\"@),
                "device frame asset path cannot be absolute: "@ + path,
            ),
            due_if(
                exists|i: int|
                    0 <= i < pieces(path, '/').len() && stray_step(#[trigger] pieces(path, '/')[i]),
                "device frame asset path cannot escape cache directory: "@ + path,
            ),
        ),
    )
}

/// Checks a path below the cache: every step of it leads down.
pub fn safe_manifest_relative_path(path: &str) -> (result: Result<String, Error>)
    ensures
        match cache_path_message(path@) {
            Some(message) => result matches Err(error) && error@ == message,
            None => result matches Ok(safe) && safe@ == path@,
        },
{
    if path.unicode_len() == 0 {
        return Err(failure("device frame asset path cannot be empty".to_owned()));
    }
    if starts_with(path, "/") || contains(path, "\\") {
        return Err(failure(cat("device frame asset path cannot be absolute: ", path)));
    }
    let steps = split(path, '/');
    let mut i: usize = 0;
    while i < steps.len()
        invariant
            i <= steps.len(),
            texts(steps@) == pieces(path@, '/'),
            forall|k: int| 0 <= k < i ==> !stray_step(#[trigger] pieces(path@, '/')[k]),
            path@.len() > 0,
            !starts(path@, "/"@),
            !occurs(path@, "\\"@),
        decreases steps.len() - i,
    {
        let step = steps[i].as_str();
        proof {
            assert(texts(steps@)[i as int] == step@);
        }
        if step.unicode_len() == 0 || same(step, ".") || same(step, "..") {
            proof {
                assert(stray_step(pieces(path@, '/')[i as int]));
            }
            return Err(
                failure(cat("device frame asset path cannot escape cache directory: ", path)),
            );
        }
        i += 1;
    }
    proof {
        assert(texts(steps@).len() == steps.len());
    }
    Ok(path.to_owned())
}

/// Where device frames come from.
pub fn device_frames_base_url(variable: Option<&str>) -> (url: String)
    ensures
        url@ == stripped_end(
            match variable {
                Some(value) => if blank(value@) {
                    DEFAULT_DEVICE_FRAMES_URL@
                } else {
                    value@
                },
                None => DEFAULT_DEVICE_FRAMES_URL@,
            },
            '/',
        ),
{
    let url = match variable {
        Some(value) => if is_blank(value) {
            DEFAULT_DEVICE_FRAMES_URL
        } else {
            value
        },
        None => DEFAULT_DEVICE_FRAMES_URL,
    };
    strip_end(url, '/')
}

/// The address of a file of the list.
pub fn asset_url(base_url: &str, path: &str) -> (url: String)
    ensures
        url@ == base_url@ + "/"@ + percent_encoded(path@),
{
    cat3(base_url, "/", percent_encode(path).as_str())
}

/// The bytes are those of a file of the list.
pub open spec fn is_asset(bytes: Seq<u8>, asset: AssetView) -> bool {
    bytes.len() == asset.size && hex(md5_of(bytes)) == asset.md5
}

/// Whether a file of the cache is the one of the list; `None` where the cache has no such file.
pub fn cached_frame_asset_matches(
    cached: Option<&Vec<u8>>,
    asset: &FrameAssetManifestFile,
) -> (result: bool)
    ensures
        result == (cached matches Some(bytes) && is_asset(bytes@, asset@)),
{
    match cached {
        None => false,
        Some(bytes) => bytes.len() as u64 == asset.size && same(
            md5_hex(bytes.as_slice()).as_str(),
            asset.md5.as_str(),
        ),
    }
}

/// What is wrong with a file that was fetched.
pub open spec fn fetched_message(bytes: Seq<u8>, asset: AssetView) -> Option<Seq<char>> {
    earlier(
        due_if(
            bytes.len() != asset.size,
            "downloaded device frame asset "@ + asset.path + " has size "@ + decimal(bytes.len())
                + ", expected "@ + decimal(asset.size as nat),
        ),
        due_if(
            hex(md5_of(bytes)) != asset.md5,
            "downloaded device frame asset "@ + asset.path + " has md5 "@ + hex(md5_of(bytes))
                + ", expected "@ + asset.md5,
        ),
    )
}

/// Checks a file that was fetched.
pub fn check_fetched_asset(bytes: &Vec<u8>, asset: &FrameAssetManifestFile) -> (result: Result<
    (),
    Error,
>)
    ensures
        fails_as(result, fetched_message(bytes@, asset@)),
        result is Ok <==> is_asset(bytes@, asset@),
{
    let size: u64 = bytes.len() as u64;
    if size != asset.size {
        return Err(
            failure(
                cat3(
                    "downloaded device frame asset ",
                    asset.path.as_str(),
                    " has size ",
                ).concat(decimal_text(size).as_str()).concat(", expected ").concat(
                    decimal_text(asset.size).as_str(),
                ),
            ),
        );
    }
    let md5 = md5_hex(bytes.as_slice());
    if !same(md5.as_str(), asset.md5.as_str()) {
        return Err(
            failure(
                cat3(
                    "downloaded device frame asset ",
                    asset.path.as_str(),
                    " has md5 ",
                ).concat(md5.as_str()).concat(", expected ").concat(asset.md5.as_str()),
            ),
        );
    }
    Ok(())
}

/// The name under which a file is written before it takes its place.
pub fn download_name(file_name: &str) -> (name: String)
    ensures
        name@ == "."@ + file_name@ + ".download"@,
{
    cat3(".", file_name, ".download")
}

/// The directories in which device frames are looked for, in turn.
pub open spec fn frame_dirs(
    explicit: Option<Seq<char>>,
    variable: Option<Seq<char>>,
    home: Seq<char>,
) -> Seq<Seq<char>> {
    let first = match explicit {
        Some(path) => seq![path],
        None => seq![],
    };
    let second = match variable {
        Some(path) => seq![path],
        None => seq![],
    };
    first + second + seq![
        under(home, "assets/device-frames"@),
        "assets/device-frames"@,
        "device-frames"@,
        "frames"@,
        "vendor/device-frames"@,
    ]
}

/// The directories in which device frames are looked for, in turn.
pub fn frame_dir_candidates(
    explicit: Option<&str>,
    variable: Option<&str>,
    home: &str,
) -> (paths: Vec<
    String,
>)
    ensures
        texts(paths@) == frame_dirs(
            crate::text::given(explicit),
            crate::text::given(variable),
            home@,
        ),
{
    let mut paths: Vec<String> = Vec::new();
    if let Some(path) = explicit {
        paths.push(path.to_owned());
    }
    if let Some(path) = variable {
        paths.push(path.to_owned());
    }
    paths.push(join_path(home, "assets/device-frames"));
    paths.push("assets/device-frames".to_owned());
    paths.push("device-frames".to_owned());
    paths.push("frames".to_owned());
    paths.push("vendor/device-frames".to_owned());
    proof {
        assert(texts(paths@) =~= frame_dirs(
            crate::text::given(explicit),
            crate::text::given(variable),
            home@,
        ));
    }
    paths
}

/// The files that can hold the image of a frame, in turn.
pub fn frame_image_candidates(frame_dir: &str, name: &str) -> (paths: (String, String))
    ensures
        paths.0@ == under(frame_dir@, name@ + ".png"@),
        paths.1@ == under(frame_dir@, name@ + ".PNG"@),
{
    (
        join_path(frame_dir, cat(name, ".png").as_str()),
        join_path(frame_dir, cat(name, ".PNG").as_str()),
    )
}

/// The message of a frame that was found nowhere.
pub fn missing_frame(name: &str, frame_dir: &str) -> (error: Error)
    ensures
        error@ == "device frame "@ + debug_form(name@) + " was not found in "@ + frame_dir@,
{
    failure(
        cat3("device frame ", debug_text(name).as_str(), " was not found in ").concat(frame_dir),
    )
}

} // verus!
