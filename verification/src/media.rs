//! Files with pictures, sound and video among the results of tools.

use crate::paths::{
    after_last, after_last_of, components, components_of_path, extension, extension_of, opt_str,
    starts_with_path, within,
};
use crate::text::{chars_of, lowercase, opt_text, same_text, text_of, texts_view};
use crate::value::{group_json_view, items_view, Json, JsonView};
use crate::wecom_crypto::{base64_text, data_url};
use vstd::prelude::*;

verus! {

broadcast use group_json_view;

/// The extension of a picture, a sound or a video.
pub open spec fn media_extension(ext: Seq<char>) -> bool {
    ext == "png"@ || ext == "jpg"@ || ext == "jpeg"@ || ext == "gif"@ || ext == "webp"@ || ext
        == "bmp"@ || ext == "svg"@ || ext == "mp3"@ || ext == "wav"@ || ext == "m4a"@ || ext
        == "mp4"@ || ext == "webm"@ || ext == "mov"@
}

pub fn is_media_extension(ext: &str) -> (r: bool)
    ensures
        r == media_extension(ext@),
{
    same_text(ext, "png") || same_text(ext, "jpg") || same_text(ext, "jpeg") || same_text(
        ext,
        "gif",
    ) || same_text(ext, "webp") || same_text(ext, "bmp") || same_text(ext, "svg") || same_text(
        ext,
        "mp3",
    ) || same_text(ext, "wav") || same_text(ext, "m4a") || same_text(ext, "mp4") || same_text(
        ext,
        "webm",
    ) || same_text(ext, "mov")
}

/// What stands behind the last dot, in lower case, names a kind of media.
pub open spec fn media_path(path: Seq<char>) -> bool {
    media_extension(lowercase(after_last(path, '.')))
}

pub fn is_media_path(path: &str) -> (r: bool)
    ensures
        r == media_path(path@),
{
    let chars = chars_of(path);
    let ext = text_of(after_last_of(chars.as_slice(), '.'));
    is_media_extension(ext.as_str().to_lowercase().as_str())
}

/// The extension of a picture.
pub open spec fn image_extension(ext: Seq<char>) -> bool {
    ext == "jpg"@ || ext == "jpeg"@ || ext == "png"@ || ext == "gif"@ || ext == "webp"@ || ext
        == "bmp"@
}

pub fn is_image_extension(ext: &str) -> (r: bool)
    ensures
        r == image_extension(ext@),
{
    same_text(ext, "jpg") || same_text(ext, "jpeg") || same_text(ext, "png") || same_text(
        ext,
        "gif",
    ) || same_text(ext, "webp") || same_text(ext, "bmp")
}

/// A file that can be sent as a picture, going by the extension of its name.
pub open spec fn picture_path(path: Seq<char>) -> bool {
    match extension(path) {
        Some(ext) => image_extension(lowercase(ext)),
        None => false,
    }
}

pub fn is_picture_path(path: &str) -> (r: bool)
    ensures
        r == picture_path(path@),
{
    match extension_of(path) {
        Some(ext) => is_image_extension(ext.as_str().to_lowercase().as_str()),
        None => false,
    }
}

/// What stands behind the last dot, in lower case, names a kind of picture.
pub open spec fn image_path(path: Seq<char>) -> bool {
    let ext = lowercase(after_last(path, '.'));
    image_extension(ext) || ext == "svg"@ || ext == "tiff"@ || ext == "ico"@
}

pub fn is_image_path(path: &str) -> (r: bool)
    ensures
        r == image_path(path@),
{
    let chars = chars_of(path);
    let ext = text_of(after_last_of(chars.as_slice(), '.')).as_str().to_lowercase();
    is_image_extension(ext.as_str()) || same_text(ext.as_str(), "svg") || same_text(
        ext.as_str(),
        "tiff",
    ) || same_text(ext.as_str(), "ico")
}

/// The media type of the pictures that a model is shown.
pub open spec fn shown_type(ext: Seq<char>) -> Option<Seq<char>> {
    if ext == "jpg"@ || ext == "jpeg"@ {
        Some("image/jpeg"@)
    } else if ext == "png"@ {
        Some("image/png"@)
    } else if ext == "gif"@ {
        Some("image/gif"@)
    } else if ext == "webp"@ {
        Some("image/webp"@)
    } else {
        None
    }
}

/// The media type of the file that a path leads to.
pub open spec fn shown_path_type(path: Seq<char>) -> Option<Seq<char>> {
    match extension(path) {
        Some(ext) => shown_type(lowercase(ext)),
        None => None,
    }
}

pub fn shown_type_of(path: &str) -> (r: Option<&'static str>)
    ensures
        opt_str(r) == shown_path_type(path@),
{
    match extension_of(path) {
        Some(ext) => {
            let ext = ext.as_str().to_lowercase();
            let ext = ext.as_str();
            if same_text(ext, "jpg") || same_text(ext, "jpeg") {
                Some("image/jpeg")
            } else if same_text(ext, "png") {
                Some("image/png")
            } else if same_text(ext, "gif") {
                Some("image/gif")
            } else if same_text(ext, "webp") {
                Some("image/webp")
            } else {
                None
            }
        },
        None => None,
    }
}

/// A picture as a model is shown it; nothing where the file is none that can be shown.
pub fn encode_image_to_base64(path: &str, bytes: &[u8]) -> (r: Option<String>)
    ensures
        opt_text(r) == (match shown_path_type(path@) {
            Some(mime) => Some("data:"@ + mime + ";base64,"@ + base64_text(bytes@)),
            None => None,
        }),
{
    match shown_type_of(path) {
        Some(mime) => Some(data_url(mime, bytes)),
        None => None,
    }
}

// ---------------------------------------------------------------------------
// Results
// ---------------------------------------------------------------------------

/// The path in member `key`, where it leads to media.
pub open spec fn media_at(result: JsonView, key: Seq<char>) -> Seq<Seq<char>> {
    match result.str_at(key) {
        Some(p) if media_path(p) => seq![p],
        _ => Seq::empty(),
    }
}

pub open spec fn media_among(items: Seq<JsonView>) -> Seq<Seq<char>>
    decreases items.len(),
{
    if items.len() == 0 {
        Seq::empty()
    } else {
        match items.last() {
            JsonView::Str(p) if media_path(p) => media_among(items.drop_last()).push(p),
            _ => media_among(items.drop_last()),
        }
    }
}

/// The media that the result of a tool names.
pub open spec fn media_in(result: JsonView) -> Seq<Seq<char>> {
    media_at(result, "output_path"@) + media_at(result, "path"@) + media_at(result, "file_path"@)
        + media_at(result, "screenshot_path"@) + media_at(result, "image_path"@) + (
    match result.get("media"@) {
        Some(JsonView::Array(items)) => media_among(items),
        _ => Seq::empty(),
    })
}

fn add_media_at(media: &mut Vec<String>, result: &Json, key: &str)
    ensures
        texts_view(final(media)@) == texts_view(old(media)@) + media_at(result@, key@),
{
    let ghost before = texts_view(media@);
    if let Some(p) = result.str_at(key) {
        if is_media_path(p) {
            let path = p.to_owned();
            media.push(path);
            assert(texts_view(media@) =~= before + seq![path@]);
            return;
        }
    }
    assert(texts_view(media@) =~= before + Seq::empty());
}

pub fn media_of(result: &Json) -> (r: Vec<String>)
    ensures
        texts_view(r@) == media_in(result@),
{
    let mut media: Vec<String> = Vec::new();
    assert(texts_view(media@) =~= Seq::empty());
    add_media_at(&mut media, result, "output_path");
    assert(texts_view(media@) =~= media_at(result@, "output_path"@));
    add_media_at(&mut media, result, "path");
    add_media_at(&mut media, result, "file_path");
    add_media_at(&mut media, result, "screenshot_path");
    add_media_at(&mut media, result, "image_path");
    let ghost before = texts_view(media@);
    if let Some(found) = result.get("media") {
        if let Json::Array(items) = found {
            let ghost views = items_view(items@);
            let mut i: usize = 0;
            assert(before + media_among(views.take(0)) =~= before);
            while i < items.len()
                invariant
                    i <= items.len(),
                    views == items_view(items@),
                    texts_view(media@) == before + media_among(views.take(i as int)),
                decreases items.len() - i,
            {
                assert(views.take(i + 1).drop_last() =~= views.take(i as int));
                assert(views[i as int] == items@[i as int]@);
                if let Json::Str(p) = &items[i] {
                    if is_media_path(p.as_str()) {
                        let ghost so_far = texts_view(media@);
                        let path = p.clone();
                        media.push(path);
                        assert(texts_view(media@) =~= so_far.push(path@));
                        assert(texts_view(media@) =~= before + media_among(views.take(i + 1)));
                    }
                }
                i += 1;
            }
            assert(views.take(views.len() as int) =~= views);
            return media;
        }
    }
    assert(before + Seq::empty() =~= before);
    media
}

// ---------------------------------------------------------------------------
// The picture that is meant
// ---------------------------------------------------------------------------

/// What the file system says of a file that a message mentions by its path.
pub struct MentionedFile {
    pub path: String,
    pub exists: bool,
    pub canonical: Option<String>,
}

/// A file may be sent if it is there and lies in the directory for media.
pub open spec fn sendable(file: MentionedFile, media_dir: Option<Seq<char>>) -> bool {
    file.exists && file.canonical is Some && media_dir is Some && within(
        components(media_dir->0),
        components(file.canonical->0@),
    )
}

/// The first of the files that may be sent.
pub open spec fn first_sendable(files: Seq<MentionedFile>, media_dir: Option<Seq<char>>) -> Option<
    Seq<char>,
>
    decreases files.len(),
{
    if files.len() == 0 {
        None
    } else if sendable(files[0], media_dir) {
        Some(files[0].path@)
    } else {
        first_sendable(files.skip(1), media_dir)
    }
}

/// The first of the files of the media directory, each with whether it is there, that is there.
pub open spec fn first_present(files: Seq<(String, bool)>) -> Option<Seq<char>>
    decreases files.len(),
{
    if files.len() == 0 {
        None
    } else if files[0].1 {
        Some(files[0].0@)
    } else {
        first_present(files.skip(1))
    }
}

/// The picture that one message means: a file at a path that it mentions, or else a file of the
/// media directory that it names.
pub fn pick_mentioned_image(
    paths: &Vec<MentionedFile>,
    names: &Vec<(String, bool)>,
    media_dir: Option<&str>,
) -> (r: Option<String>)
    ensures
        opt_text(r) == (match first_sendable(paths@, opt_str(media_dir)) {
            Some(path) => Some(path),
            None => first_present(names@),
        }),
{
    let mut i: usize = 0;
    assert(paths@.skip(0) =~= paths@);
    while i < paths.len()
        invariant
            i <= paths.len(),
            first_sendable(paths@, opt_str(media_dir)) == first_sendable(
                paths@.skip(i as int),
                opt_str(media_dir),
            ),
        decreases paths.len() - i,
    {
        assert(paths@.skip(i as int).skip(1) =~= paths@.skip(i + 1));
        let file = &paths[i];
        if file.exists {
            if let Some(canonical) = &file.canonical {
                if let Some(dir) = media_dir {
                    if starts_with_path(
                        &components_of_path(dir),
                        &components_of_path(canonical.as_str()),
                    ) {
                        return Some(file.path.clone());
                    }
                }
            }
        }
        i += 1;
    }
    let mut k: usize = 0;
    assert(names@.skip(0) =~= names@);
    while k < names.len()
        invariant
            k <= names.len(),
            first_sendable(paths@, opt_str(media_dir)) is None,
            first_present(names@) == first_present(names@.skip(k as int)),
        decreases names.len() - k,
    {
        assert(names@.skip(k as int).skip(1) =~= names@.skip(k + 1));
        if names[k].1 {
            return Some(names[k].0.clone());
        }
        k += 1;
    }
    None
}

/// A picture that is picked for its path is there and lies in the directory for media.
pub proof fn law_picked_lies_in_media_dir(files: Seq<MentionedFile>, media_dir: Option<Seq<char>>)
    ensures
        first_sendable(files, media_dir) is Some ==> exists|i: int|
            0 <= i < files.len() && #[trigger] sendable(files[i], media_dir) && files[i].path@
                == first_sendable(files, media_dir)->0,
    decreases files.len(),
{
    if files.len() > 0 && !sendable(files[0], media_dir) {
        law_picked_lies_in_media_dir(files.skip(1), media_dir);
        if first_sendable(files, media_dir) is Some {
            let rest = files.skip(1);
            let i = choose|i: int|
                0 <= i < rest.len() && #[trigger] sendable(rest[i], media_dir) && rest[i].path@
                    == first_sendable(rest, media_dir)->0;
            assert(files[i + 1] == rest[i]);
            assert(sendable(files[i + 1], media_dir));
        }
    }
}

} // verus!
