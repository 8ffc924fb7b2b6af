use identicon::canvas::Canvas;
use identicon::image_builder::IdenticonError;
use identicon::image_builder::ImageBuilder;
use identicon::image_builder::Point;
use identicon::SIZE;
use identicon::SQUARES;

const BANANA_DIGEST: [u8; 64] = [
    248, 227, 24, 61, 56, 230, 197, 24, 137, 88, 44, 178, 96, 171, 130, 82, 82, 243, 149, 180,
    172, 143, 176, 230, 177, 62, 154, 113, 247, 193, 10, 128, 213, 48, 30, 74, 148, 159, 39, 131,
    203, 12, 32, 32, 95, 29, 133, 15, 135, 4, 95, 68, 32, 173, 34, 113, 200, 253, 95, 12, 216,
    148, 75, 227,
];

const EMPTY_DIGEST: [u8; 64] = [
    207, 131, 225, 53, 126, 239, 184, 189, 241, 84, 40, 80, 214, 109, 128, 7, 214, 32, 228, 5, 11,
    87, 21, 220, 131, 244, 169, 33, 211, 108, 233, 206, 71, 208, 209, 60, 93, 133, 242, 176, 255,
    131, 24, 210, 135, 126, 236, 47, 99, 185, 49, 189, 71, 65, 122, 129, 165, 56, 50, 122, 249,
    39, 218, 62,
];

fn digest_of(username: &str) -> Vec<u8> {
    let builder = ImageBuilder::new(username.to_string()).hash_username();
    builder.hash().as_ref().unwrap().clone()
}

fn painted_pixels(canvas: &Canvas) -> Vec<(usize, usize, (u8, u8, u8))> {
    let bytes = canvas.bytes();
    let size = SIZE as usize;
    let mut out = Vec::new();
    for y in 0..size {
        for x in 0..size {
            let idx = 3 * (y * size + x);
            let px = (bytes[idx], bytes[idx + 1], bytes[idx + 2]);
            if px != (0, 0, 0) {
                out.push((x, y, px));
            }
        }
    }
    out
}

#[test]
fn hash_is_deterministic() {
    let d1 = digest_of("banana");
    let d2 = digest_of("banana");
    assert_eq!(d1, d2);
    assert_eq!(d1, BANANA_DIGEST.to_vec());
}

#[test]
fn hash_differs_across_usernames() {
    let corpus = ["banana", "apple", "a", "user", "alice", "bob"];
    let digests: Vec<Vec<u8>> = corpus.iter().map(|u| digest_of(u)).collect();
    for i in 0..digests.len() {
        assert_eq!(digests[i].len(), 64);
        for j in 0..digests.len() {
            if i != j {
                assert_ne!(digests[i], digests[j]);
            }
        }
    }
}

#[test]
fn empty_username_digest() {
    let d = digest_of("");
    assert_eq!(d, EMPTY_DIGEST.to_vec());
}

#[test]
fn color_is_last_three_digest_bytes() {
    let builder = ImageBuilder::new("banana".to_string())
        .hash_username()
        .pick_color()
        .unwrap();
    let color = builder.color().as_ref().unwrap();
    assert_eq!(color.len(), 3);
    assert_eq!(color.as_slice(), &[148, 75, 227]);
}

#[test]
fn grid_is_mirrored() {
    let builder = ImageBuilder::new("banana".to_string())
        .hash_username()
        .set_grid()
        .unwrap();
    let grid = builder.grid().as_ref().unwrap();
    assert_eq!(
        grid.as_slice(),
        &[56, 61, 24, 227, 248, 248, 227, 24, 61, 56]
    );
    let n = SQUARES as usize;
    assert_eq!(grid.len(), n);
    for i in 0..n {
        assert_eq!(grid[i], grid[n - 1 - i]);
    }
}

#[test]
fn grid_is_mirrored_for_empty_username() {
    let builder = ImageBuilder::new(String::new())
        .hash_username()
        .set_grid()
        .unwrap();
    let grid = builder.grid().as_ref().unwrap();
    assert_eq!(
        grid.as_slice(),
        &[126, 53, 225, 131, 207, 207, 131, 225, 53, 126]
    );
    let n = SQUARES as usize;
    for i in 0..n {
        assert_eq!(grid[i], grid[n - 1 - i]);
    }
}

#[test]
fn filter_keeps_even_values_in_order() {
    let builder = ImageBuilder::new("banana".to_string())
        .hash_username()
        .set_grid()
        .unwrap()
        .filter_odd_squares()
        .unwrap();
    let grid = builder.grid().as_ref().unwrap();
    assert_eq!(grid.as_slice(), &[56, 24, 248, 248, 24, 56]);
}

#[test]
fn filter_is_idempotent() {
    for username in ["banana", "a", "alice", ""] {
        let once = ImageBuilder::new(username.to_string())
            .hash_username()
            .set_grid()
            .unwrap()
            .filter_odd_squares()
            .unwrap();
        let grid_once = once.grid().as_ref().unwrap().clone();
        let twice = once.filter_odd_squares().unwrap();
        let grid_twice = twice.grid().as_ref().unwrap().clone();
        assert_eq!(grid_once, grid_twice);
    }
}

#[test]
fn pixel_map_matches_filtered_grid() {
    let builder = ImageBuilder::new("banana".to_string())
        .hash_username()
        .set_grid()
        .unwrap()
        .filter_odd_squares()
        .unwrap()
        .build_pixel_map()
        .unwrap();
    let grid_len = builder.grid().as_ref().unwrap().len();
    let map = builder.pixel_map().as_ref().unwrap();
    assert_eq!(map.len(), grid_len);
    for (i, (top_left, bottom_right)) in map.iter().enumerate() {
        let i = i as u8;
        assert_eq!(top_left.x, (i % SQUARES) * 2);
        assert_eq!(top_left.y, (i / SQUARES) * 2);
        assert_eq!(bottom_right.x, top_left.x + 2);
        assert_eq!(bottom_right.y, top_left.y + 2);
        for p in [top_left, bottom_right] {
            assert!(p.x <= SIZE);
            assert!(p.y <= SIZE);
        }
    }
}

#[test]
fn pixel_map_banana_exact_regions() {
    let builder = ImageBuilder::new("banana".to_string())
        .hash_username()
        .set_grid()
        .unwrap()
        .filter_odd_squares()
        .unwrap()
        .build_pixel_map()
        .unwrap();
    let map = builder.pixel_map().as_ref().unwrap();
    let expected: Vec<(Point, Point)> = (0u8..6)
        .map(|i| {
            (
                Point { x: 2 * i, y: 0 },
                Point { x: 2 * i + 2, y: 2 },
            )
        })
        .collect();
    assert_eq!(map, &expected);
}

#[test]
fn end_to_end_banana() {
    let identicon = ImageBuilder::new("banana".to_string())
        .hash_username()
        .pick_color()
        .unwrap()
        .set_grid()
        .unwrap()
        .filter_odd_squares()
        .unwrap()
        .build_pixel_map()
        .unwrap()
        .draw_image()
        .unwrap()
        .build()
        .unwrap();
    assert_eq!(identicon.username(), "banana");
    assert_eq!(identicon.file_name(), "banana.png");
    let canvas = identicon.canvas();
    assert_eq!(canvas.bytes().len(), 3 * SIZE as usize * SIZE as usize);
    let painted = painted_pixels(canvas);
    // Six filtered cells, two corner pixels each, all distinct.
    assert_eq!(painted.len(), 12);
    for (_, _, px) in &painted {
        assert_eq!(*px, (148, 75, 227));
    }
    for i in 0..6usize {
        assert!(painted.contains(&(2 * i, 0, (148, 75, 227))));
        assert!(painted.contains(&(2 * i + 2, 2, (148, 75, 227))));
    }
}

#[test]
fn end_to_end_empty_username() {
    let identicon = ImageBuilder::new(String::new())
        .hash_username()
        .pick_color()
        .unwrap()
        .set_grid()
        .unwrap()
        .filter_odd_squares()
        .unwrap()
        .build_pixel_map()
        .unwrap()
        .draw_image()
        .unwrap()
        .build()
        .unwrap();
    assert_eq!(identicon.username(), "");
    assert_eq!(identicon.file_name(), ".png");
    let painted = painted_pixels(identicon.canvas());
    // Two filtered cells ([126, 126]), two corner pixels each.
    assert_eq!(painted.len(), 4);
    for (_, _, px) in &painted {
        assert_eq!(*px, (39, 218, 62));
    }
}

#[test]
fn rerun_same_username_is_byte_identical() {
    let run = |username: &str| {
        ImageBuilder::new(username.to_string())
            .hash_username()
            .pick_color()
            .unwrap()
            .set_grid()
            .unwrap()
            .filter_odd_squares()
            .unwrap()
            .build_pixel_map()
            .unwrap()
            .draw_image()
            .unwrap()
            .build()
            .unwrap()
    };
    let first = run("banana");
    let second = run("banana");
    assert_eq!(first.canvas().bytes(), second.canvas().bytes());
    assert_eq!(first.file_name(), second.file_name());
}

#[test]
fn pick_color_before_hash_fails() {
    let r = ImageBuilder::new("banana".to_string()).pick_color();
    assert_eq!(r.unwrap_err(), IdenticonError::PipelineOrderError);
}

#[test]
fn set_grid_before_hash_fails() {
    let r = ImageBuilder::new("banana".to_string()).set_grid();
    assert_eq!(r.unwrap_err(), IdenticonError::PipelineOrderError);
}

#[test]
fn filter_before_grid_fails() {
    let r = ImageBuilder::new("banana".to_string())
        .hash_username()
        .filter_odd_squares();
    assert_eq!(r.unwrap_err(), IdenticonError::PipelineOrderError);
}

#[test]
fn pixel_map_before_grid_fails() {
    let r = ImageBuilder::new("banana".to_string())
        .hash_username()
        .build_pixel_map();
    assert_eq!(r.unwrap_err(), IdenticonError::PipelineOrderError);
}

#[test]
fn draw_before_color_fails() {
    let r = ImageBuilder::new("banana".to_string())
        .hash_username()
        .draw_image();
    assert_eq!(r.unwrap_err(), IdenticonError::MissingColor);
}

#[test]
fn draw_before_pixel_map_fails() {
    let r = ImageBuilder::new("banana".to_string())
        .hash_username()
        .pick_color()
        .unwrap()
        .draw_image();
    assert_eq!(r.unwrap_err(), IdenticonError::MissingPixelMap);
}

#[test]
fn build_before_draw_fails() {
    let r = ImageBuilder::new("banana".to_string())
        .hash_username()
        .build();
    assert!(r.is_err());
}

#[test]
fn canvas_starts_blank_and_paints_single_pixels() {
    let mut canvas = Canvas::new();
    assert!(canvas.bytes().iter().all(|b| *b == 0));
    canvas.set_pixel(3, 4, 9, 8, 7);
    let idx = 3 * (4 * SIZE as usize + 3);
    let bytes = canvas.bytes();
    assert_eq!(&bytes[idx..idx + 3], &[9, 8, 7]);
    let painted = painted_pixels(&canvas);
    assert_eq!(painted, vec![(3, 4, (9, 8, 7))]);
}
