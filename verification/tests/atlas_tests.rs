use image::DynamicImage;
use image::GenericImage;
use image::Rgba;
use omt_atlas::atlas::Atlas;
use omt_atlas::combine::AtlasSet;
use omt_atlas::emit::png_or_error;
use omt_atlas::entry::Entry;
use omt_atlas::error::OmError;
use omt_atlas::phase::Event;
use omt_atlas::phase::Phase;
use omt_atlas::pixels::blit;
use omt_atlas::row::Row;

fn entry(name: &str, w: u32, h: u32) -> Entry {
    let mut e = Entry::new(name, 0, 0);
    e.set_image(DynamicImage::new_rgba8(w, h));
    e
}

fn rect(e: &Entry) -> (u32, u32, u32, u32) {
    (e.x, e.y, e.width, e.height)
}

fn overlap(a: &Entry, b: &Entry) -> bool {
    a.x < b.x + b.width && b.x < a.x + a.width && a.y < b.y + b.height && b.y < a.y + a.height
}

#[test]
fn row_new_is_empty() {
    let r = Row::new(7, 256, 30);
    assert_eq!((r.y, r.width, r.height, r.end_x), (7, 256, 30, 0));
}

#[test]
fn would_fit_accepts_exact_fit() {
    let mut r = Row::new(0, 256, 100);
    assert!(r.would_fit(256, 100));
    assert_eq!(r.reserve(200), 0);
    assert!(r.would_fit(56, 100));
    assert!(r.would_fit(56, 1));
}

#[test]
fn would_fit_rejects_too_high() {
    let r = Row::new(0, 256, 100);
    assert!(!r.would_fit(10, 101));
}

#[test]
fn would_fit_rejects_too_wide() {
    let mut r = Row::new(0, 256, 100);
    r.reserve(200);
    assert!(!r.would_fit(57, 100));
    assert!(!r.would_fit(57, 10));
}

#[test]
fn reserve_advances_cursor_by_width() {
    let mut r = Row::new(5, 100, 10);
    assert_eq!(r.reserve(30), 0);
    assert_eq!(r.reserve(0), 30);
    assert_eq!(r.reserve(70), 30);
    assert_eq!(r.end_x, 100);
    assert_eq!((r.y, r.width, r.height), (5, 100, 10));
}

#[test]
fn entry_takes_size_from_image() {
    let mut e = Entry::new("a/b.png", 3, 4);
    assert_eq!((e.width, e.height, e.x, e.y), (3, 4, 0, 0));
    assert!(e.image.is_none());
    e.set_image(DynamicImage::new_rgba8(20, 10));
    assert_eq!((e.width, e.height), (20, 10));
    assert!(e.image.is_some());
    e.set_position(8, 9);
    assert_eq!((e.x, e.y), (8, 9));
    assert_eq!(e.filename, "a/b.png");
}

#[test]
fn new_atlas_is_empty_and_zeroed() {
    let a = Atlas::new(16, 3);
    assert_eq!((a.size, a.border, a.used_height), (16, 3, 0));
    assert!(a.rows.is_empty());
    assert!(a.entries.is_empty());
    for y in 0..16 {
        for x in 0..16 {
            assert_eq!(a.pixel(x, y), (0, 0, 0, 0));
        }
    }
}

#[test]
fn add_row_succeeds_while_height_remains() {
    let mut a = Atlas::new(256, 0);
    assert_eq!(a.add_row(100), Some(0));
    assert_eq!(a.used_height, 100);
    assert_eq!(a.add_row(156), Some(1));
    assert_eq!(a.used_height, 256);
    assert_eq!((a.rows[1].y, a.rows[1].width, a.rows[1].height, a.rows[1].end_x), (100, 256, 156, 0));
    assert_eq!(a.add_row(1), None);
    assert_eq!(a.used_height, 256);
    assert_eq!(a.rows.len(), 2);
    assert_eq!(a.add_row(0), Some(2));
    assert_eq!(a.used_height, 256);
}

#[test]
fn add_row_fails_when_too_high() {
    let mut a = Atlas::new(256, 0);
    assert_eq!(a.add_row(257), None);
    assert_eq!(a.add_row(200), Some(0));
    assert_eq!(a.add_row(57), None);
    assert_eq!(a.add_row(56), Some(1));
}

#[test]
fn candidates_exclude_rows_twice_as_high() {
    let mut a = Atlas::new(256, 0);
    assert_eq!(a.add_row(100), Some(0));
    assert_eq!(a.add_row(60), Some(1));
    assert_eq!(a.add_row(40), Some(2));
    assert!(a.rows[0].would_fit(10, 50));
    assert_eq!(a.find_candidates(10, 50), vec![1]);
    assert_eq!(a.find_candidates(10, 51), vec![0, 1]);
    assert_eq!(a.find_candidates(10, 40), vec![1, 2]);
    assert_eq!(a.find_candidates(10, 20), Vec::<usize>::new());
    assert_eq!(a.find_candidates(10, 101), Vec::<usize>::new());
    assert_eq!(a.find_candidates(257, 60), Vec::<usize>::new());
}

#[test]
fn select_best_is_first_fit() {
    assert_eq!(Atlas::select_best(&vec![4, 1, 9]), 4);
    assert_eq!(Atlas::select_best(&vec![2]), 2);
}

#[test]
fn tall_row_is_skipped_for_a_new_row() {
    let mut a = Atlas::new(256, 0);
    assert!(a.add_entry(&entry("tall.png", 10, 100)));
    assert!(a.add_entry(&entry("small.png", 10, 50)));
    assert_eq!(rect(&a.entries[1]), (0, 100, 10, 50));
    assert_eq!(a.rows.len(), 2);
    assert!(a.add_entry(&entry("mid.png", 10, 51)));
    assert_eq!(rect(&a.entries[2]), (10, 0, 10, 51));
}

#[test]
fn add_entry_to_row_checks_index_and_fit() {
    let mut a = Atlas::new(64, 0);
    assert!(!a.add_entry_to_row_with_index(&entry("a.png", 8, 8), 0));
    assert_eq!(a.add_row(8), Some(0));
    assert!(!a.add_entry_to_row_with_index(&entry("a.png", 8, 9), 0));
    assert!(!a.add_entry_to_row_with_index(&entry("a.png", 65, 8), 0));
    assert!(a.entries.is_empty());
    assert!(a.add_entry_to_row_with_index(&entry("a.png", 60, 8), 0));
    assert_eq!(rect(&a.entries[0]), (0, 0, 60, 8));
    assert_eq!(a.rows[0].end_x, 60);
    assert!(a.entries[0].image.is_none());
    assert!(!a.add_entry_to_row_with_index(&entry("b.png", 5, 8), 0));
    assert!(a.add_entry_to_row_with_index(&entry("b.png", 4, 2), 0));
    assert_eq!(rect(&a.entries[1]), (60, 0, 4, 2));
}

#[test]
fn scenario_overflow_across_canvases() {
    let input = vec![entry("1.png", 200, 200), entry("2.png", 200, 200), entry("3.png", 200, 200)];
    let (set, names) = Atlas::combine("atlas-%d", 256, 0, input).unwrap();
    assert_eq!(set.atlases.len(), 3);
    assert_eq!(names.len(), 3);
    for a in &set.atlases {
        assert_eq!(a.entries.len(), 1);
        assert_eq!(rect(&a.entries[0]), (0, 0, 200, 200));
        assert_eq!(a.rows.len(), 1);
        assert_eq!((a.rows[0].y, a.rows[0].height, a.rows[0].end_x), (0, 200, 200));
        assert_eq!(a.used_height, 200);
    }
    assert_eq!(set.atlases[0].entries[0].filename, "1.png");
    assert_eq!(set.atlases[1].entries[0].filename, "2.png");
    assert_eq!(set.atlases[2].entries[0].filename, "3.png");
}

#[test]
fn scenario_row_packing_in_one_canvas() {
    let input = vec![
        entry("art/sprite1.png", 100, 100),
        entry("art/sprite2.png", 100, 100),
        entry("art/sprite3.png", 100, 100),
    ];
    let (set, _) = Atlas::combine("atlas-%d", 256, 0, input).unwrap();
    assert_eq!(set.atlases.len(), 1);
    let a = &set.atlases[0];
    assert_eq!(a.entries.len(), 3);
    assert_eq!(rect(&a.entries[0]), (0, 0, 100, 100));
    assert_eq!(rect(&a.entries[1]), (100, 0, 100, 100));
    assert_eq!(rect(&a.entries[2]), (0, 100, 100, 100));
    assert_eq!(a.used_height, 200);
    assert_eq!(a.rows.len(), 2);
}

#[test]
fn scenario_map_text() {
    let input = vec![
        entry("art/sprite1.png", 100, 100),
        entry("art/sprite2.png", 100, 100),
        entry("art/sprite3.png", 100, 100),
    ];
    let (set, _) = Atlas::combine("atlas-%d", 256, 0, input).unwrap();
    let text = set.atlases[0].encode_map();
    let lines: Vec<&str> = text.split_inclusive('\n').collect();
    assert_eq!(lines.len(), 3);
    assert_eq!(lines[2], "sprite3.png:0,100-100,200\n");
    assert_eq!(
        text,
        "sprite1.png:0,0-100,100\nsprite2.png:100,0-200,100\nsprite3.png:0,100-100,200\n"
    );
}

#[test]
fn empty_canvas_has_empty_map() {
    assert_eq!(Atlas::new(8, 0).encode_map(), "");
}

#[test]
fn oversized_entry_is_rejected() {
    let mut a = Atlas::new(256, 0);
    assert!(!a.add_entry(&entry("wide.png", 300, 100)));
    assert!(a.add_entry(&entry("ok.png", 100, 100)));
    assert!(!a.add_entry(&entry("wide.png", 300, 100)));
    assert!(!a.add_entry(&entry("high.png", 100, 257)));
    assert_eq!(a.entries.len(), 1);
    assert_eq!(a.rows.len(), 1);
    assert_eq!(a.used_height, 100);
}

#[test]
fn combine_fails_with_capacity_error() {
    let input = vec![entry("ok.png", 10, 10), entry("wide.png", 300, 100)];
    let r = Atlas::combine("atlas-%d", 256, 0, input);
    assert!(matches!(r, Err(OmError::Capacity)));
}

#[test]
fn combine_of_nothing_makes_no_canvas() {
    let (set, names) = Atlas::combine("atlas-%d", 256, 0, Vec::new()).unwrap();
    assert!(set.atlases.is_empty());
    assert!(names.is_empty());
}

#[test]
fn combine_names_each_canvas() {
    let input = vec![entry("1.png", 200, 200), entry("2.png", 200, 200), entry("3.png", 200, 200)];
    let (_, names) = Atlas::combine("atlas-%d", 256, 0, input).unwrap();
    assert_eq!(names[0].png, "atlas-0.png");
    assert_eq!(names[1].atlas, "atlas-1.atlas");
    assert_eq!(names[2].png, "atlas-2.png");
    assert_eq!(names[2].atlas, "atlas-2.atlas");
    assert_eq!(names[2].map, "atlas-2.map");
}

#[test]
fn border_has_no_effect_on_placement() {
    let input = vec![entry("a.png", 100, 100), entry("b.png", 100, 90), entry("c.png", 100, 100)];
    let again = vec![entry("a.png", 100, 100), entry("b.png", 100, 90), entry("c.png", 100, 100)];
    let (plain, _) = Atlas::combine("o-%d", 256, 0, input).unwrap();
    let (bordered, _) = Atlas::combine("o-%d", 256, 7, again).unwrap();
    assert_eq!(plain.atlases.len(), bordered.atlases.len());
    assert_eq!(bordered.atlases[0].border, 7);
    for (p, b) in plain.atlases.iter().zip(bordered.atlases.iter()) {
        assert_eq!(p.entries.len(), b.entries.len());
        for (x, y) in p.entries.iter().zip(b.entries.iter()) {
            assert_eq!(rect(x), rect(y));
        }
    }
}

#[test]
fn place_prefers_earliest_canvas() {
    let mut set = AtlasSet::new(256, 0);
    assert_eq!(set.place(entry("a.png", 200, 200)), Ok(0));
    assert_eq!(set.place(entry("b.png", 200, 200)), Ok(1));
    assert_eq!(set.place(entry("c.png", 56, 200)), Ok(0));
    assert_eq!(rect(&set.atlases[0].entries[1]), (200, 0, 56, 200));
    assert_eq!(set.place(entry("d.png", 256, 56)), Ok(0));
    assert_eq!(rect(&set.atlases[0].entries[2]), (0, 200, 256, 56));
    assert_eq!(set.place(entry("e.png", 257, 1)), Err(OmError::Capacity));
    assert_eq!(set.atlases.len(), 2);
    assert_eq!(set.place(entry("f.png", 1, 1)), Ok(1));
    assert_eq!(rect(&set.atlases[1].entries[1]), (0, 200, 1, 1));
}

#[test]
fn placed_entries_stay_inside_and_apart() {
    let sizes = [(100, 40), (30, 30), (90, 35), (60, 60), (10, 10), (200, 20), (50, 45), (70, 64), (128, 128), (5, 100)];
    let mut input = Vec::new();
    let mut again = Vec::new();
    for (i, (w, h)) in sizes.iter().enumerate() {
        input.push(entry(&format!("img{}.png", i), *w, *h));
        again.push(entry(&format!("img{}.png", i), *w, *h));
    }
    let (set, _) = Atlas::combine("a%d", 200, 0, input).unwrap();
    let mut placed = 0;
    for a in &set.atlases {
        assert!(a.used_height <= a.size);
        for (i, e) in a.entries.iter().enumerate() {
            placed += 1;
            assert!(e.x + e.width <= a.size);
            assert!(e.y + e.height <= a.size);
            for f in a.entries.iter().skip(i + 1) {
                assert!(!overlap(e, f));
            }
        }
    }
    assert_eq!(placed, 10);
    assert!(matches!(Atlas::combine("a%d", 199, 0, again), Err(OmError::Capacity)));
}

#[test]
fn zero_sized_entries_are_placed() {
    let mut a = Atlas::new(16, 0);
    assert!(a.add_entry(&entry("flat.png", 4, 0)));
    assert_eq!(rect(&a.entries[0]), (0, 0, 4, 0));
    assert!(a.add_entry(&entry("thin.png", 0, 16)));
    assert_eq!(rect(&a.entries[1]), (0, 0, 0, 16));
    assert_eq!(a.used_height, 16);
}

#[test]
fn blit_copies_every_source_pixel() {
    let mut dest = DynamicImage::new_rgba8(4, 4);
    let mut source = DynamicImage::new_rgba8(2, 3);
    for y in 0..3u32 {
        for x in 0..2u32 {
            source.put_pixel(x, y, Rgba([10 + x as u8, 20 + y as u8, 30, 255]));
        }
    }
    blit(&mut dest, &source, 2, 1);
    let out = dest.to_rgba();
    for y in 0..4u32 {
        for x in 0..4u32 {
            let expected = if x >= 2 && y >= 1 {
                [10 + (x - 2) as u8, 20 + (y - 1) as u8, 30, 255]
            } else {
                [0, 0, 0, 0]
            };
            assert_eq!(out.get_pixel(x, y).0, expected);
        }
    }
}

#[test]
fn add_entry_copies_pixels_to_its_place() {
    let mut a = Atlas::new(8, 0);
    let mut first = DynamicImage::new_rgba8(3, 2);
    first.put_pixel(2, 1, Rgba([1, 2, 3, 4]));
    let mut second = DynamicImage::new_rgba8(2, 2);
    second.put_pixel(0, 0, Rgba([9, 8, 7, 6]));
    second.put_pixel(1, 1, Rgba([5, 5, 5, 5]));
    let mut e1 = Entry::new("first.png", 0, 0);
    e1.set_image(first);
    let mut e2 = Entry::new("second.png", 0, 0);
    e2.set_image(second);
    assert!(a.add_entry(&e1));
    assert!(a.add_entry(&e2));
    assert_eq!(rect(&a.entries[1]), (3, 0, 2, 2));
    assert_eq!(a.pixel(2, 1), (1, 2, 3, 4));
    assert_eq!(a.pixel(3, 0), (9, 8, 7, 6));
    assert_eq!(a.pixel(4, 1), (5, 5, 5, 5));
    assert_eq!(a.pixel(0, 0), (0, 0, 0, 0));
    assert_eq!(a.pixel(5, 0), (0, 0, 0, 0));
    assert_eq!(a.pixel(7, 7), (0, 0, 0, 0));
}

#[test]
fn encode_image_is_a_png_of_the_canvas() {
    let mut a = Atlas::new(4, 0);
    let mut img = DynamicImage::new_rgba8(1, 1);
    img.put_pixel(0, 0, Rgba([200, 100, 50, 255]));
    let mut e = Entry::new("dot.png", 0, 0);
    e.set_image(img);
    assert!(a.add_entry(&e));
    let bytes = a.encode_image().unwrap();
    assert_eq!(&bytes[0..8], &[0x89, b'P', b'N', b'G', 0x0d, 0x0a, 0x1a, 0x0a]);
    let back = image::load_from_memory(&bytes).unwrap().to_rgba();
    assert_eq!(back.dimensions(), (4, 4));
    assert_eq!(back.get_pixel(0, 0).0, [200, 100, 50, 255]);
    assert_eq!(back.get_pixel(1, 0).0, [0, 0, 0, 0]);
}

#[test]
fn descriptor_is_empty() {
    assert!(Atlas::new(4, 0).encode_descriptor().is_empty());
}

#[test]
fn hello_greets() {
    assert_eq!(Atlas::hello(), "Atlas::hello()");
}

#[test]
fn phases_follow_each_other() {
    let p = Phase::Loading;
    assert!(!p.finished());
    let p = p.next(Event::Finished);
    assert_eq!(p, Phase::Placing);
    let p = p.next(Event::Finished);
    assert_eq!(p, Phase::Emitting);
    let p = p.next(Event::Finished);
    assert_eq!(p, Phase::Done);
    assert!(p.finished());
    assert_eq!(p.exit_code(), 0);
    assert_eq!(p.next(Event::WriteFailed), Phase::Done);
}

#[test]
fn failure_is_final() {
    assert_eq!(Phase::Loading.next(Event::DecodeFailed), Phase::Failed(OmError::Decode));
    assert_eq!(Phase::Placing.next(Event::TooLarge), Phase::Failed(OmError::Capacity));
    let failed = Phase::Emitting.next(Event::WriteFailed);
    assert_eq!(failed, Phase::Failed(OmError::Io));
    assert!(failed.finished());
    assert_eq!(failed.exit_code(), 1);
    assert_eq!(failed.next(Event::Finished), failed);
    assert_eq!(failed.next(Event::TooLarge), failed);
}

#[test]
fn failed_encoding_is_an_io_error() {
    assert_eq!(png_or_error(None), Err(OmError::Io));
    assert_eq!(png_or_error(Some(vec![1, 2, 3])), Ok(vec![1, 2, 3]));
}

#[test]
fn canvas_of_side_zero_cannot_be_encoded() {
    assert_eq!(Atlas::new(0, 0).encode_image(), Err(OmError::Io));
}

#[test]
fn combine_of_nothing_needs_no_room() {
    let (set, names) = Atlas::combine("atlas-%d", u32::MAX, 0, Vec::new()).unwrap();
    assert!(set.atlases.is_empty());
    assert!(names.is_empty());
}

#[test]
fn map_names_a_directory_by_its_last_segment() {
    let mut a = Atlas::new(256, 0);
    assert!(a.add_entry(&entry("b/", 1, 1)));
    assert!(a.add_entry(&entry("art/tiles/.", 2, 1)));
    assert_eq!(a.encode_map(), "b:0,0-1,1\ntiles:1,0-3,1\n");
}

#[test]
fn oversized_image_fails_the_batch_wherever_it_stands() {
    for at in 0..3 {
        let mut input = vec![entry("a.png", 10, 10), entry("b.png", 20, 20)];
        input.insert(at, entry("wide.png", 300, 100));
        assert!(matches!(Atlas::combine("atlas-%d", 256, 0, input), Err(OmError::Capacity)));
    }
}
