use std::io::Read;

use viewport_archive::archive::{add_img_to_zip, decimal_string, entry_name, Archive};
use viewport_archive::batch::{
    compressed_viewer_to_flat, compressed_viewer_to_zip, decode_all, for_each_image, pack,
    render_all, render_item, JSONCompressedImgState, JSONImages,
};
use viewport_archive::codec::{decode_bytes, decode_image, encode_img, header_end, strip_header};
use viewport_archive::error::{ArchiveError, DecodeFault, GeometryFault};
use viewport_archive::geometry::Ratio;
use viewport_archive::raster::Raster;

fn ratio(num: u32, den: u32) -> Ratio {
    Ratio::new(num, den).unwrap()
}

fn state(src: usize, scale: Ratio, left: i32, top: i32, rotate: i32) -> JSONCompressedImgState {
    JSONCompressedImgState { src, alt: 0, scale, left, top, rotate }
}

fn solid(width: u32, height: u32, colour: [u8; 4]) -> Raster {
    Raster::new(width, height, colour.repeat((width * height) as usize)).unwrap()
}

/// The data URL of a PNG file of one colour.
fn png_url(width: u32, height: u32, colour: [u8; 4]) -> String {
    let file = encode_img(&solid(width, height, colour)).unwrap();
    format!("data:image/png;base64,{}", base64::encode(file))
}

fn png_to_raster(file: &[u8]) -> Raster {
    let img = image::load_from_memory(file).unwrap().into_rgba8();
    Raster::new(img.width(), img.height(), img.into_raw()).unwrap()
}

fn entries(file: Vec<u8>) -> Vec<(String, Vec<u8>)> {
    let mut archive = zip::ZipArchive::new(std::io::Cursor::new(file)).unwrap();
    let mut out = Vec::new();
    for i in 0..archive.len() {
        let mut entry = archive.by_index(i).unwrap();
        let mut data = Vec::new();
        entry.read_to_end(&mut data).unwrap();
        out.push((entry.name().to_string(), data));
    }
    out
}

const RED: [u8; 4] = [255, 0, 0, 255];
const BLUE: [u8; 4] = [0, 0, 255, 255];

#[test]
fn header_ends_at_the_first_comma() {
    assert_eq!(header_end(b"data:image/png;base64,AAAA"), Some(21));
    assert_eq!(header_end(b",x,y"), Some(0));
    assert_eq!(header_end(b"no header"), None);
    assert_eq!(header_end(b""), None);
    assert_eq!(strip_header(b"a,b,c"), Some(&b"b,c"[..]));
    assert_eq!(strip_header(b"abc,"), Some(&b""[..]));
    assert_eq!(strip_header(b"abc"), None);
}

#[test]
fn decode_reads_a_png_data_url() {
    let url = png_url(3, 2, [10, 20, 30, 255]);
    let img = decode_image(&url).unwrap();
    assert_eq!((img.width(), img.height()), (3, 2));
    assert_eq!(img.as_raw(), &[10u8, 20, 30, 255].repeat(6));
    let same = decode_bytes(url.as_bytes()).unwrap();
    assert_eq!(same.as_raw(), img.as_raw());
}

#[test]
fn decode_converts_other_pixel_formats_to_rgba() {
    let grey = image::GrayImage::from_pixel(2, 2, image::Luma([77]));
    let mut file = std::io::Cursor::new(Vec::new());
    image::DynamicImage::ImageLuma8(grey).write_to(&mut file, image::ImageOutputFormat::Bmp).unwrap();
    let url = format!("data:image/bmp;base64,{}", base64::encode(file.into_inner()));
    let img = decode_image(&url).unwrap();
    assert_eq!((img.width(), img.height()), (2, 2));
    assert_eq!(img.as_raw(), &[77u8, 77, 77, 255].repeat(4));
}

#[test]
fn decode_reports_a_missing_header() {
    assert_eq!(decode_image("AAAA").err(), Some(DecodeFault::MissingHeader));
    assert_eq!(decode_image("").err(), Some(DecodeFault::MissingHeader));
}

#[test]
fn decode_reports_a_bad_payload() {
    assert_eq!(decode_image("data:image/png;base64,@@@@").err(), Some(DecodeFault::Payload));
    assert_eq!(decode_image("data:,A").err(), Some(DecodeFault::Payload));
}

#[test]
fn decode_reports_bytes_that_are_no_image() {
    let url = format!("data:image/png;base64,{}", base64::encode(b"this is no image"));
    assert_eq!(decode_image(&url).err(), Some(DecodeFault::Image));
    assert_eq!(decode_image("data:image/png;base64,").err(), Some(DecodeFault::Image));
}

#[test]
fn encode_writes_a_png_file() {
    let src = Raster::new(2, 1, vec![1, 2, 3, 255, 4, 5, 6, 128]).unwrap();
    let file = encode_img(&src).unwrap();
    assert_eq!(&file[..8], &[0x89, b'P', b'N', b'G', 0x0d, 0x0a, 0x1a, 0x0a]);
    let back = png_to_raster(&file);
    assert_eq!((back.width(), back.height()), (2, 1));
    assert_eq!(back.as_raw(), src.as_raw());
}

#[test]
fn decimal_string_writes_every_digit() {
    assert_eq!(decimal_string(0), "0");
    assert_eq!(decimal_string(9), "9");
    assert_eq!(decimal_string(10), "10");
    assert_eq!(decimal_string(1234567890), "1234567890");
    assert_eq!(decimal_string(usize::MAX), usize::MAX.to_string());
    for n in 0..2000usize {
        assert_eq!(decimal_string(n), n.to_string());
    }
}

#[test]
fn entry_names_are_decimal() {
    assert_eq!(entry_name(0), "0.png");
    assert_eq!(entry_name(7), "7.png");
    assert_eq!(entry_name(10), "10.png");
    assert_eq!(entry_name(1234567890), "1234567890.png");
}

#[test]
fn archive_keeps_entries_in_the_order_added() {
    let mut zip = Archive::new();
    zip.append("b.txt", b"second letter").unwrap();
    zip.append("a.txt", b"").unwrap();
    zip.append("c.txt", b"third").unwrap();
    let got = entries(zip.finalize().unwrap());
    assert_eq!(
        got,
        vec![
            ("b.txt".to_string(), b"second letter".to_vec()),
            ("a.txt".to_string(), Vec::new()),
            ("c.txt".to_string(), b"third".to_vec()),
        ]
    );
}

#[test]
fn empty_archive_is_a_zip_file_without_entries() {
    let file = Archive::new().finalize().unwrap();
    assert!(entries(file).is_empty());
}

#[test]
fn add_img_to_zip_adds_the_png_under_its_index() {
    let img = solid(4, 4, RED);
    let mut zip = Archive::new();
    add_img_to_zip(3, &img, &mut zip).unwrap();
    add_img_to_zip(0, &img, &mut zip).unwrap();
    let got = entries(zip.finalize().unwrap());
    assert_eq!(got.len(), 2);
    assert_eq!(got[0].0, "3.png");
    assert_eq!(got[1].0, "0.png");
    assert_eq!(got[0].1, encode_img(&img).unwrap());
    assert_eq!(png_to_raster(&got[1].1).as_raw(), img.as_raw());
}

#[test]
fn pack_names_entries_by_index_in_order() {
    let files: Vec<Vec<u8>> = (0..12u8).map(|i| vec![i; i as usize]).collect();
    let got = entries(pack(&files).unwrap());
    assert_eq!(got.len(), 12);
    for (i, (name, data)) in got.iter().enumerate() {
        assert_eq!(name, &format!("{}.png", i));
        assert_eq!(data, &files[i]);
    }
}

#[test]
fn packing_is_deterministic() {
    let files: Vec<Vec<u8>> = vec![vec![1, 2, 3], vec![], vec![9; 1000]];
    assert_eq!(pack(&files).unwrap(), pack(&files).unwrap());
}

#[test]
fn render_item_checks_the_source_index() {
    let images = vec![solid(10, 10, RED)];
    let r = render_item(&images, &state(1, Ratio::one(), 0, 0, 0), Ratio::one());
    assert_eq!(r.err(), Some(ArchiveError::InvalidSource));
    let r = render_item(&images, &state(0, Ratio::one(), 5000, 0, 0), Ratio::one());
    assert_eq!(r.err(), Some(ArchiveError::GeometryError(GeometryFault::NothingVisible)));
    let out = render_item(&images, &state(0, Ratio::one(), 0, 0, 0), Ratio::one()).unwrap();
    assert_eq!((out.width(), out.height()), (1920, 1080));
    assert_eq!(&out.as_raw()[..4], &RED);
}

#[test]
fn solid_red_source_renders_to_a_solid_red_png() {
    let json = JSONImages {
        dataURLs: vec![png_url(1920, 1080, RED)],
        imgStates: vec![state(0, Ratio::one(), 0, 0, 0)],
    };
    let files = compressed_viewer_to_flat(json, Ratio::one()).unwrap();
    assert_eq!(files.len(), 1);
    let out = png_to_raster(&files[0]);
    assert_eq!((out.width(), out.height()), (1920, 1080));
    assert!(out.as_raw() == &RED.repeat(1920 * 1080));
}

#[test]
fn three_placements_over_two_sources_give_three_entries() {
    let json = JSONImages {
        dataURLs: vec![png_url(8, 8, RED), png_url(4, 6, BLUE)],
        imgStates: vec![
            state(0, Ratio::one(), 0, 0, 0),
            state(1, ratio(2, 1), 10, 10, 90),
            state(0, Ratio::one(), 100, 50, 180),
        ],
    };
    let got = entries(compressed_viewer_to_zip(json, Ratio::one()).unwrap());
    assert_eq!(got.len(), 3);
    assert_eq!(got[0].0, "0.png");
    assert_eq!(got[1].0, "1.png");
    assert_eq!(got[2].0, "2.png");
    for (_, data) in got.iter() {
        let out = png_to_raster(data);
        assert_eq!((out.width(), out.height()), (1920, 1080));
    }
    let first = png_to_raster(&got[0].1);
    assert_eq!(&first.as_raw()[..4], &RED);
    let third = png_to_raster(&got[2].1);
    let at = 4 * (50 * 1920 + 100);
    assert_eq!(&third.as_raw()[at..at + 4], &RED);
    assert_eq!(&third.as_raw()[..4], &[0, 0, 0, 255]);
}

#[test]
fn flat_and_zip_hold_the_same_files() {
    let request = || JSONImages {
        dataURLs: vec![png_url(8, 8, RED)],
        imgStates: vec![state(0, Ratio::one(), 3, 4, 0), state(0, ratio(3, 1), 0, 0, 270)],
    };
    let flat = compressed_viewer_to_flat(request(), ratio(5, 4)).unwrap();
    let got = entries(compressed_viewer_to_zip(request(), ratio(5, 4)).unwrap());
    assert_eq!(got.len(), 2);
    assert_eq!(got[0], ("0.png".to_string(), flat[0].clone()));
    assert_eq!(got[1], ("1.png".to_string(), flat[1].clone()));
}

#[test]
fn empty_request_gives_an_empty_archive() {
    let json = JSONImages { dataURLs: Vec::new(), imgStates: Vec::new() };
    assert!(entries(compressed_viewer_to_zip(json, Ratio::one()).unwrap()).is_empty());
    let json = JSONImages { dataURLs: Vec::new(), imgStates: Vec::new() };
    assert!(compressed_viewer_to_flat(json, Ratio::one()).unwrap().is_empty());
}

#[test]
fn one_corrupt_source_in_fifty_fails_the_batch() {
    let mut urls: Vec<String> = (0..50u8).map(|i| png_url(2, 2, [i, i, i, 255])).collect();
    urls[31] = format!("data:image/png;base64,{}", base64::encode(b"corrupt"));
    assert_eq!(
        decode_all(&urls).err(),
        Some(ArchiveError::DecodeError(DecodeFault::Image))
    );
    let json = JSONImages { dataURLs: urls.clone(), imgStates: vec![state(0, Ratio::one(), 0, 0, 0)] };
    assert_eq!(
        compressed_viewer_to_zip(json, Ratio::one()).err(),
        Some(ArchiveError::DecodeError(DecodeFault::Image))
    );
    let json = JSONImages { dataURLs: urls, imgStates: vec![state(0, Ratio::one(), 0, 0, 0)] };
    assert_eq!(
        compressed_viewer_to_flat(json, Ratio::one()).err(),
        Some(ArchiveError::DecodeError(DecodeFault::Image))
    );
}

#[test]
fn decode_all_keeps_the_order_of_the_sources() {
    let urls: Vec<String> = (0..20u8).map(|i| png_url(1, 1, [i, 0, 0, 255])).collect();
    let images = decode_all(&urls).unwrap();
    assert_eq!(images.len(), 20);
    for (i, img) in images.iter().enumerate() {
        assert_eq!(img.as_raw(), &vec![i as u8, 0, 0, 255]);
    }
}

#[test]
fn invalid_source_index_fails_the_batch() {
    let json = JSONImages {
        dataURLs: vec![png_url(2, 2, RED)],
        imgStates: vec![state(0, Ratio::one(), 0, 0, 0), state(1, Ratio::one(), 0, 0, 0)],
    };
    assert_eq!(render_all(&json, Ratio::one()).err(), Some(ArchiveError::InvalidSource));
    assert_eq!(compressed_viewer_to_flat(json, Ratio::one()).err(), Some(ArchiveError::InvalidSource));
}

#[test]
fn unrenderable_placement_fails_the_batch() {
    let json = JSONImages {
        dataURLs: vec![png_url(2, 2, RED)],
        imgStates: vec![state(0, Ratio::one(), 0, 0, 0), state(0, Ratio::one(), 1921, 0, 0)],
    };
    assert_eq!(
        compressed_viewer_to_zip(json, Ratio::one()).err(),
        Some(ArchiveError::GeometryError(GeometryFault::NothingVisible))
    );
    let json = JSONImages {
        dataURLs: vec![png_url(2, 2, RED)],
        imgStates: vec![state(0, ratio(1, 3), 0, 0, 0)],
    };
    assert_eq!(
        compressed_viewer_to_flat(json, Ratio::one()).err(),
        Some(ArchiveError::GeometryError(GeometryFault::Collapsed))
    );
}

#[test]
fn error_messages_name_the_stage() {
    assert_eq!(ArchiveError::DecodeError(DecodeFault::Payload).message(), "Error decoding a source image");
    assert_eq!(ArchiveError::InvalidSource.message(), "Error with a source index");
    assert_eq!(
        ArchiveError::GeometryError(GeometryFault::Overflow).message(),
        "Error placing the viewport"
    );
    assert_eq!(ArchiveError::EncodeError.message(), "Error encoding a raster");
    assert_eq!(ArchiveError::ContainerError.message(), "Error writing the archive");
}

#[test]
fn compressed_json_to_image_files() {
    let json = JSONImages {
        dataURLs: vec![png_url(8, 8, RED), png_url(4, 6, BLUE)],
        imgStates: vec![
            state(0, Ratio::one(), 0, 0, 0),
            state(1, Ratio::one(), 20, 30, 0),
            state(0, Ratio::one(), 7, 0, 360),
        ],
    };
    let seen = std::sync::Mutex::new(Vec::new());
    for_each_image(json, ratio(5, 4), |i, im| {
        let (colour, side_x, side_y, left, top) = match i {
            0 => (RED, 10, 10, 0, 0),
            1 => (BLUE, 5, 7, 20, 30),
            _ => (RED, 10, 10, 7, 0),
        };
        let mut correct_im = [0u8, 0, 0, 255].repeat(1920 * 1080);
        for y in top..top + side_y {
            for x in left..left + side_x {
                correct_im[4 * (y * 1920 + x)..4 * (y * 1920 + x) + 4].copy_from_slice(&colour);
            }
        }
        assert!(im.as_raw() == &correct_im);
        seen.lock().unwrap().push(i);
        Ok(())
    })
    .unwrap();
    let mut seen = seen.into_inner().unwrap();
    seen.sort();
    assert_eq!(seen, vec![0, 1, 2]);
}

#[test]
fn for_each_image_stops_at_a_failing_callback() {
    let json = JSONImages {
        dataURLs: vec![png_url(8, 8, RED)],
        imgStates: vec![state(0, Ratio::one(), 0, 0, 0), state(0, Ratio::one(), 1, 1, 0)],
    };
    let r = for_each_image(json, Ratio::one(), |_, _| Err(ArchiveError::ContainerError));
    assert_eq!(r, Err(ArchiveError::ContainerError));
    let json = JSONImages {
        dataURLs: vec!["nothing".to_string()],
        imgStates: Vec::new(),
    };
    let r = for_each_image(json, Ratio::one(), |_, _| Ok(()));
    assert_eq!(r, Err(ArchiveError::DecodeError(DecodeFault::MissingHeader)));
}

#[test]
fn compressed_json_to_zip() {
    // does not assert that the zip is correct, just that it is formed with no errors.
    let json = JSONImages {
        dataURLs: vec![png_url(8, 8, RED), png_url(4, 6, BLUE)],
        imgStates: vec![state(0, Ratio::one(), 0, 0, 0), state(1, ratio(3, 2), 20, 30, 90)],
    };
    compressed_viewer_to_zip(json, ratio(5, 4)).unwrap();
}

#[test]
fn encode_refuses_a_raster_without_pixels() {
    let empty = Raster::new(0, 0, Vec::new()).unwrap();
    assert!(encode_img(&empty).is_none());
    let mut zip = Archive::new();
    assert_eq!(add_img_to_zip(0, &empty, &mut zip), Err(ArchiveError::EncodeError));
    assert!(entries(zip.finalize().unwrap()).is_empty());
}

#[test]
fn failed_encoding_leaves_the_archive_as_it_was() {
    let empty = Raster::new(0, 0, Vec::new()).unwrap();
    let img = solid(2, 2, BLUE);
    let mut zip = Archive::new();
    add_img_to_zip(0, &img, &mut zip).unwrap();
    assert_eq!(add_img_to_zip(1, &empty, &mut zip), Err(ArchiveError::EncodeError));
    add_img_to_zip(2, &img, &mut zip).unwrap();
    let got = entries(zip.finalize().unwrap());
    assert_eq!(got.len(), 2);
    assert_eq!(got[0], ("0.png".to_string(), encode_img(&img).unwrap()));
    assert_eq!(got[1], ("2.png".to_string(), encode_img(&img).unwrap()));
}

#[test]
fn request_without_placements_gives_an_archive_without_entries() {
    let json = JSONImages { dataURLs: vec![png_url(2, 2, RED), png_url(3, 1, BLUE)], imgStates: Vec::new() };
    let file = compressed_viewer_to_zip(json, ratio(5, 4)).unwrap();
    assert!(entries(file).is_empty());
    assert!(entries(pack(&Vec::new()).unwrap()).is_empty());
}
