use rayon::iter::{IntoParallelRefIterator, ParallelIterator};
use vstd::prelude::*;
use vstd::utf8::encode_utf8;
use crate::archive::{
    archive_bytes, entry_accepted, entry_name, entry_name_spec, packs, Archive,
};
use crate::codec::{decode_image, decode_spec, encode_img, encode_spec};
use crate::error::{ArchiveError, DecodeFault};
use crate::geometry::Ratio;
use crate::raster::{Image, Raster};
use crate::render::{render, render_spec, Placement};

verus! {

/// One placement of a request: the index of its source image, a stacking
/// hint that rendering does not use, and where the image is placed.
#[derive(Clone, Copy, Debug)]
pub struct JSONCompressedImgState {
    pub src: usize,
    pub alt: i32,
    pub scale: Ratio,
    pub left: i32,
    pub top: i32,
    pub rotate: i32,
}

impl JSONCompressedImgState {
    pub open spec fn placement(&self) -> Placement {
        Placement { scale: self.scale, left: self.left, top: self.top, rotate: self.rotate }
    }
}

/// A request: the encoded source images and the placements to render.
#[allow(non_snake_case)]
pub struct JSONImages {
    pub dataURLs: Vec<String>,
    pub imgStates: Vec<JSONCompressedImgState>,
}

/// What the `i`-th encoded source image decodes to.
pub open spec fn source_spec(urls: Seq<String>, i: int) -> Result<Image, DecodeFault> {
    decode_spec(encode_utf8(urls[i]@))
}

/// The `i`-th source image decodes to `img`.
pub open spec fn decodes_to(urls: Seq<String>, i: int, img: Image) -> bool {
    source_spec(urls, i) == Ok::<Image, DecodeFault>(img)
}

/// The `i`-th source image cannot be decoded, for the reason `e`.
pub open spec fn decode_fails(urls: Seq<String>, i: int, e: DecodeFault) -> bool {
    source_spec(urls, i) == Err::<Image, DecodeFault>(e)
}

/// Every source image can be decoded.
pub open spec fn all_decode(urls: Seq<String>) -> bool {
    forall|i: int| 0 <= i < urls.len() ==> (#[trigger] source_spec(urls, i)) is Ok
}

/// The decoded source images, where all can be decoded.
pub open spec fn sources(urls: Seq<String>) -> Seq<Image> {
    Seq::new(urls.len(), |i: int| source_spec(urls, i)->Ok_0)
}

/// The contents of a sequence of rasters.
pub open spec fn views(s: Seq<Raster>) -> Seq<Image> {
    Seq::new(s.len(), |i: int| s[i]@)
}

/// The contents of a sequence of files.
pub open spec fn file_views(files: Seq<Vec<u8>>) -> Seq<Seq<u8>> {
    Seq::new(files.len(), |i: int| files[i]@)
}

/// The rendering of one placement over the decoded sources.
pub open spec fn render_item_spec(
    images: Seq<Image>,
    st: JSONCompressedImgState,
    zoom: Ratio,
) -> Result<Image, ArchiveError> {
    if st.src >= images.len() {
        Err(ArchiveError::InvalidSource)
    } else {
        match render_spec(images[st.src as int], st.placement(), zoom) {
            Ok(out) => Ok(out),
            Err(e) => Err(ArchiveError::GeometryError(e)),
        }
    }
}

/// The placement `st` renders to `out`.
pub open spec fn renders_to(
    images: Seq<Image>,
    st: JSONCompressedImgState,
    zoom: Ratio,
    out: Image,
) -> bool {
    render_item_spec(images, st, zoom) == Ok::<Image, ArchiveError>(out)
}

/// The placement `st` cannot be rendered, for the reason `e`.
pub open spec fn render_fails(
    images: Seq<Image>,
    st: JSONCompressedImgState,
    zoom: Ratio,
    e: ArchiveError,
) -> bool {
    render_item_spec(images, st, zoom) == Err::<Image, ArchiveError>(e)
}

/// The PNG file of one placement's rendering.
pub open spec fn item_spec(images: Seq<Image>, st: JSONCompressedImgState, zoom: Ratio) -> Result<
    Seq<u8>,
    ArchiveError,
> {
    match render_item_spec(images, st, zoom) {
        Err(e) => Err(e),
        Ok(out) => match encode_spec(out) {
            None => Err(ArchiveError::EncodeError),
            Some(file) => Ok(file),
        },
    }
}

/// Every placement has a rendering.
pub open spec fn all_render(
    images: Seq<Image>,
    states: Seq<JSONCompressedImgState>,
    zoom: Ratio,
) -> bool {
    forall|i: int|
        0 <= i < states.len() ==> (#[trigger] render_item_spec(images, states[i], zoom)) is Ok
}

/// Every placement has a rendering and a PNG file of it.
pub open spec fn all_items(
    images: Seq<Image>,
    states: Seq<JSONCompressedImgState>,
    zoom: Ratio,
) -> bool {
    forall|i: int| 0 <= i < states.len() ==> (#[trigger] item_spec(images, states[i], zoom)) is Ok
}

/// The PNG files of all placements, in the order of the request.
pub open spec fn files_spec(
    images: Seq<Image>,
    states: Seq<JSONCompressedImgState>,
    zoom: Ratio,
) -> Seq<Seq<u8>> {
    Seq::new(states.len(), |i: int| item_spec(images, states[i], zoom)->Ok_0)
}

/// The entries of the archive that holds the given files: the `i`-th is
/// named by `i` and holds the `i`-th file.
pub open spec fn packed_entries(files: Seq<Seq<u8>>) -> Seq<(Seq<char>, Seq<u8>)> {
    Seq::new(files.len(), |i: int| (entry_name_spec(i as nat), files[i]))
}

/// `e` is a failure that the request can be answered with: that of some
/// source image that cannot be decoded; or, where all can, that of some
/// placement that cannot be rendered; or, where all can, the failure to
/// encode, some rendering having no PNG file.
pub open spec fn is_failure_of(json: JSONImages, zoom: Ratio, e: ArchiveError) -> bool {
    let urls = json.dataURLs@;
    let states = json.imgStates@;
    if !all_decode(urls) {
        e matches ArchiveError::DecodeError(f) && exists|i: int|
            0 <= i < urls.len() && #[trigger] decode_fails(urls, i, f)
    } else if !all_render(sources(urls), states, zoom) {
        exists|i: int|
            0 <= i < states.len() && #[trigger] render_fails(sources(urls), states[i], zoom, e)
    } else {
        e == ArchiveError::EncodeError && !all_items(sources(urls), states, zoom)
    }
}

/// Trusted: rayon's parallel iterator over a `Vec`, mapped and collected
/// into a `Result`, gives the results of all items in the order of the
/// items where every item succeeds, and the error of one failing item
/// otherwise. The closure is `decode_image`.
#[verifier::external_body]
fn par_decode(urls: &Vec<String>) -> (r: Result<Vec<Raster>, DecodeFault>)
    ensures
        r matches Ok(v) ==> v@.len() == urls@.len() && forall|i: int|
            0 <= i < urls@.len() ==> #[trigger] decodes_to(urls@, i, v@[i]@),
        r matches Err(e) ==> exists|i: int|
            0 <= i < urls@.len() && #[trigger] decode_fails(urls@, i, e),
{
    urls.par_iter().map(|u| decode_image(u.as_str())).collect()
}

/// Trusted: as `par_decode`; the closure is `render_item`.
#[verifier::external_body]
fn par_render(images: &Vec<Raster>, states: &Vec<JSONCompressedImgState>, zoom: Ratio) -> (r:
    Result<Vec<Raster>, ArchiveError>)
    ensures
        r matches Ok(v) ==> v@.len() == states@.len() && forall|i: int|
            0 <= i < states@.len() ==> #[trigger] renders_to(
                views(images@),
                states@[i],
                zoom,
                v@[i]@,
            ),
        r matches Err(e) ==> exists|i: int|
            0 <= i < states@.len() && #[trigger] render_fails(views(images@), states@[i], zoom, e),
{
    states.par_iter().map(|st| render_item(images, st, zoom)).collect()
}

/// Trusted: rayon's parallel iterator over a `Vec`, mapped and collected
/// into an `Option`, gives the results of all items in the order of the
/// items where every item has one, and `None` otherwise. The closure is
/// `encode_img`.
#[verifier::external_body]
fn par_encode(rasters: &Vec<Raster>) -> (r: Option<Vec<Vec<u8>>>)
    ensures
        r matches Some(v) ==> v@.len() == rasters@.len() && forall|i: int|
            0 <= i < rasters@.len() ==> #[trigger] encode_spec(rasters@[i]@) == Some(v@[i]@),
        r is None ==> exists|i: int|
            0 <= i < rasters@.len() && (#[trigger] encode_spec(rasters@[i]@)) is None,
{
    rasters.par_iter().map(|img| encode_img(img)).collect()
}

/// Renders one placement over the decoded sources.
pub fn render_item(images: &Vec<Raster>, st: &JSONCompressedImgState, zoom: Ratio) -> (r: Result<
    Raster,
    ArchiveError,
>)
    ensures
        r matches Ok(out) ==> renders_to(views(images@), *st, zoom, out@),
        r matches Err(e) ==> render_fails(views(images@), *st, zoom, e),
{
    if st.src >= images.len() {
        return Err(ArchiveError::InvalidSource);
    }
    let p = Placement { scale: st.scale, left: st.left, top: st.top, rotate: st.rotate };
    match render(&images[st.src], &p, zoom) {
        Ok(out) => Ok(out),
        Err(e) => Err(ArchiveError::GeometryError(e)),
    }
}

/// Decodes all source images of a request, each on its own.
pub fn decode_all(urls: &Vec<String>) -> (r: Result<Vec<Raster>, ArchiveError>)
    ensures
        r is Ok <==> all_decode(urls@),
        r matches Ok(v) ==> views(v@) == sources(urls@),
        r matches Err(e) ==> e matches ArchiveError::DecodeError(f) && exists|i: int|
            0 <= i < urls@.len() && #[trigger] decode_fails(urls@, i, f),
{
    match par_decode(urls) {
        Ok(v) => {
            assert forall|i: int| 0 <= i < urls@.len() implies (#[trigger] source_spec(
                urls@,
                i,
            )) is Ok && source_spec(urls@, i)->Ok_0 == v@[i]@ by {
                assert(decodes_to(urls@, i, v@[i]@));
            }
            assert(views(v@) =~= sources(urls@));
            Ok(v)
        },
        Err(f) => {
            let ghost i = choose|i: int| 0 <= i < urls@.len() && #[trigger] decode_fails(urls@, i, f);
            assert(source_spec(urls@, i) is Err);
            Err(ArchiveError::DecodeError(f))
        },
    }
}

/// Renders all placements of a request, each on its own; the rasters come
/// in the order of the placements.
pub fn render_all(json: &JSONImages, zoom: Ratio) -> (r: Result<Vec<Raster>, ArchiveError>)
    ensures
        r is Ok <==> all_decode(json.dataURLs@) && all_render(
            sources(json.dataURLs@),
            json.imgStates@,
            zoom,
        ),
        r matches Ok(v) ==> v@.len() == json.imgStates@.len() && forall|i: int|
            0 <= i < v@.len() ==> #[trigger] renders_to(
                sources(json.dataURLs@),
                json.imgStates@[i],
                zoom,
                v@[i]@,
            ),
        r matches Err(e) ==> is_failure_of(*json, zoom, e) && e != ArchiveError::EncodeError,
{
    let images: Vec<Raster> = match decode_all(&json.dataURLs) {
        Ok(v) => v,
        Err(e) => { return Err(e); },
    };
    match par_render(&images, &json.imgStates, zoom) {
        Ok(v) => {
            assert forall|i: int| 0 <= i < v@.len() implies #[trigger] renders_to(
                sources(json.dataURLs@),
                json.imgStates@[i],
                zoom,
                v@[i]@,
            ) by {
                assert(renders_to(views(images@), json.imgStates@[i], zoom, v@[i]@));
            }
            assert forall|i: int| 0 <= i < json.imgStates@.len() implies (
            #[trigger] render_item_spec(sources(json.dataURLs@), json.imgStates@[i], zoom)) is Ok by {
                assert(renders_to(views(images@), json.imgStates@[i], zoom, v@[i]@));
            }
            Ok(v)
        },
        Err(e) => {
            let ghost i = choose|i: int|
                0 <= i < json.imgStates@.len() && #[trigger] render_fails(
                    views(images@),
                    json.imgStates@[i],
                    zoom,
                    e,
                );
            assert(render_item_spec(sources(json.dataURLs@), json.imgStates@[i], zoom) is Err);
            assert(render_fails(sources(json.dataURLs@), json.imgStates@[i], zoom, e));
            Err(e)
        },
    }
}

/// Renders all placements of a request and encodes each as a PNG file; the
/// files come in the order of the placements.
pub fn compressed_viewer_to_flat(json: JSONImages, zoom: Ratio) -> (r: Result<
    Vec<Vec<u8>>,
    ArchiveError,
>)
    ensures
        r is Ok <==> all_decode(json.dataURLs@) && all_items(
            sources(json.dataURLs@),
            json.imgStates@,
            zoom,
        ),
        r matches Ok(files) ==> file_views(files@) == files_spec(
            sources(json.dataURLs@),
            json.imgStates@,
            zoom,
        ),
        r matches Err(e) ==> is_failure_of(json, zoom, e),
{
    let ghost images = sources(json.dataURLs@);
    let ghost states = json.imgStates@;
    let rendered: Vec<Raster> = match render_all(&json, zoom) {
        Ok(v) => v,
        Err(e) => {
            proof {
                if all_decode(json.dataURLs@) {
                    let i = choose|i: int|
                        0 <= i < states.len() && !((#[trigger] render_item_spec(
                            images,
                            states[i],
                            zoom,
                        )) is Ok);
                    assert(!(item_spec(images, states[i], zoom) is Ok));
                }
            }
            return Err(e);
        },
    };
    assert forall|i: int| 0 <= i < states.len() implies render_item_spec(images, states[i], zoom)
        == Ok::<Image, ArchiveError>(rendered@[i]@) by {
        assert(renders_to(images, states[i], zoom, rendered@[i]@));
    }
    match par_encode(&rendered) {
        Some(files) => {
            assert forall|i: int| 0 <= i < states.len() implies #[trigger] item_spec(
                images,
                states[i],
                zoom,
            ) == Ok::<Seq<u8>, ArchiveError>(files@[i]@) by {
                assert(encode_spec(rendered@[i]@) == Some(files@[i]@));
            }
            assert(file_views(files@) =~= files_spec(images, states, zoom));
            Ok(files)
        },
        None => {
            proof {
                let i = choose|i: int|
                    0 <= i < rendered@.len() && (#[trigger] encode_spec(rendered@[i]@)) is None;
                assert(!(item_spec(images, states[i], zoom) is Ok));
            }
            Err(ArchiveError::EncodeError)
        },
    }
}

/// Packs files into a zip archive: the `i`-th becomes the entry named by
/// `i`, and the entries stand in the order of the files. No files give an
/// archive without entries.
pub fn pack(files: &Vec<Vec<u8>>) -> (r: Result<Vec<u8>, ArchiveError>)
    ensures
        r is Ok <==> packs(packed_entries(file_views(files@))),
        r matches Ok(file) ==> file@ == archive_bytes(packed_entries(file_views(files@))),
        r matches Err(e) ==> e == ArchiveError::ContainerError,
        files@.len() == 0 ==> r is Ok,
{
    let ghost entries = packed_entries(file_views(files@));
    let mut zip: Archive = Archive::new();
    let mut i: usize = 0;
    assert(zip@ =~= entries.take(0));
    while i < files.len()
        invariant
            i <= files@.len(),
            entries == packed_entries(file_views(files@)),
            zip@ == entries.take(i as int),
            zip.is_open(),
            forall|j: int| 0 <= j < i ==> #[trigger] entry_accepted(entries, j),
        decreases files@.len() - i,
    {
        let name: String = entry_name(i);
        match zip.append(name.as_str(), files[i].as_slice()) {
            Ok(_) => {},
            Err(e) => {
                assert(!entry_accepted(entries, i as int));
                return Err(e);
            },
        }
        assert(entry_accepted(entries, i as int));
        assert(zip@ =~= entries.take(i + 1));
        i = i + 1;
    }
    assert(entries.take(i as int) =~= entries);
    zip.finalize()
}

/// Renders all placements of a request and packs the PNG files into a zip
/// archive, entry `i` holding the rendering of placement `i`. A request
/// without placements, whose sources can all be decoded, gives an archive
/// without entries.
pub fn compressed_viewer_to_zip(json: JSONImages, zoom: Ratio) -> (r: Result<Vec<u8>, ArchiveError>)
    ensures
        r is Ok <==> all_decode(json.dataURLs@) && all_items(
            sources(json.dataURLs@),
            json.imgStates@,
            zoom,
        ) && packs(packed_entries(files_spec(sources(json.dataURLs@), json.imgStates@, zoom))),
        r matches Ok(file) ==> file@ == archive_bytes(
            packed_entries(files_spec(sources(json.dataURLs@), json.imgStates@, zoom)),
        ),
        r matches Err(e) ==> (if all_decode(json.dataURLs@) && all_items(
            sources(json.dataURLs@),
            json.imgStates@,
            zoom,
        ) {
            e == ArchiveError::ContainerError
        } else {
            is_failure_of(json, zoom, e) && e != ArchiveError::ContainerError
        }),
        all_decode(json.dataURLs@) && json.imgStates@.len() == 0 ==> r is Ok,
{
    let files: Vec<Vec<u8>> = match compressed_viewer_to_flat(json, zoom) {
        Ok(v) => v,
        Err(e) => { return Err(e); },
    };
    pack(&files)
}

/// `callback` was handed a raster that holds `out`, with the index `i`, and
/// accepted it.
pub open spec fn accepted<F: Fn(usize, Raster) -> Result<(), ArchiveError>>(
    callback: F,
    i: int,
    out: Image,
) -> bool {
    exists|img: Raster, outcome: Result<(), ArchiveError>|
        img@ == out && outcome is Ok && #[trigger] callback.ensures((i as usize, img), outcome)
}

/// `callback` was handed a raster that holds `out`, with the index `i`, and
/// refused it for the reason `e`.
pub open spec fn refused<F: Fn(usize, Raster) -> Result<(), ArchiveError>>(
    callback: F,
    i: int,
    out: Image,
    e: ArchiveError,
) -> bool {
    exists|img: Raster| img@ == out && #[trigger] callback.ensures((i as usize, img), Err(e))
}

/// `callback` refused the rendering of placement `k` for the reason `e`,
/// after it had accepted those of all later placements.
pub open spec fn stopped_at<F: Fn(usize, Raster) -> Result<(), ArchiveError>>(
    callback: F,
    rendered: Seq<Image>,
    k: int,
    e: ArchiveError,
) -> bool {
    &&& 0 <= k < rendered.len()
    &&& refused(callback, k, rendered[k], e)
    &&& forall|i: int| k < i < rendered.len() ==> #[trigger] accepted(callback, i, rendered[i])
}

/// The renderings of all placements, where each has one.
pub open spec fn rendered_spec(
    images: Seq<Image>,
    states: Seq<JSONCompressedImgState>,
    zoom: Ratio,
) -> Seq<Image> {
    Seq::new(states.len(), |i: int| render_item_spec(images, states[i], zoom)->Ok_0)
}

/// Renders all placements of a request and hands each rendering, with the
/// index of its placement, to `callback`, the last placement first; stops
/// at the first rendering that `callback` refuses.
pub fn for_each_image<F>(json: JSONImages, zoom: Ratio, callback: F) -> (r: Result<
    (),
    ArchiveError,
>) where F: Fn(usize, Raster) -> Result<(), ArchiveError>
    requires
        forall|i: usize, img: Raster| callback.requires((i, img)),
    ensures
        !(all_decode(json.dataURLs@) && all_render(
            sources(json.dataURLs@),
            json.imgStates@,
            zoom,
        )) ==> r is Err && is_failure_of(json, zoom, r->Err_0),
        all_decode(json.dataURLs@) && all_render(sources(json.dataURLs@), json.imgStates@, zoom)
            ==> match r {
            Ok(_) => forall|i: int|
                0 <= i < json.imgStates@.len() ==> #[trigger] accepted(
                    callback,
                    i,
                    rendered_spec(sources(json.dataURLs@), json.imgStates@, zoom)[i],
                ),
            Err(e) => exists|k: int| #[trigger]
                stopped_at(
                    callback,
                    rendered_spec(sources(json.dataURLs@), json.imgStates@, zoom),
                    k,
                    e,
                ),
        },
{
    let ghost images = sources(json.dataURLs@);
    let ghost states = json.imgStates@;
    let ghost wanted = rendered_spec(images, states, zoom);
    let mut rendered: Vec<Raster> = match render_all(&json, zoom) {
        Ok(v) => v,
        Err(e) => { return Err(e); },
    };
    let ghost all = rendered@;
    assert(all.len() == rendered.len());
    assert forall|i: int| 0 <= i < all.len() implies all[i]@ == wanted[i] by {
        assert(renders_to(images, states[i], zoom, all[i]@));
    }
    while rendered.len() > 0
        invariant
            rendered@ == all.take(rendered@.len() as int),
            rendered@.len() <= all.len(),
            all.len() == wanted.len(),
            all.len() <= usize::MAX,
            wanted == rendered_spec(sources(json.dataURLs@), json.imgStates@, zoom),
            all_decode(json.dataURLs@),
            all_render(sources(json.dataURLs@), json.imgStates@, zoom),
            forall|i: usize, img: Raster| callback.requires((i, img)),
            forall|i: int| 0 <= i < all.len() ==> all[i]@ == wanted[i],
            forall|i: int|
                rendered@.len() <= i < all.len() ==> #[trigger] accepted(callback, i, wanted[i]),
        decreases rendered@.len(),
    {
        let i: usize = rendered.len() - 1;
        let img: Raster = match rendered.pop() {
            Some(x) => x,
            None => { return Ok(()); },
        };
        let ghost handed = img;
        assert(handed == all[i as int]);
        let outcome: Result<(), ArchiveError> = callback(i, img);
        assert(callback.ensures((i, handed), outcome));
        match outcome {
            Ok(_) => {
                assert(accepted(callback, i as int, wanted[i as int]));
            },
            Err(e) => {
                assert(refused(callback, i as int, wanted[i as int], e));
                assert(stopped_at(callback, wanted, i as int, e));
                return Err(e);
            },
        }
    }
    Ok(())
}

} // verus!
