use node_forge_render::render_plan::image_prepass::{flip_image_y_rgba8, Rgba8Image};

#[test]
fn rows_are_reversed() {
    let image = Rgba8Image {
        width: 2,
        height: 3,
        pixels: (0u8..24).collect(),
    };
    let flipped = flip_image_y_rgba8(image);
    assert_eq!((flipped.width, flipped.height), (2, 3));
    let expected: Vec<u8> = (16u8..24).chain(8u8..16).chain(0u8..8).collect();
    assert_eq!(flipped.pixels, expected);
}

#[test]
fn flipping_twice_restores_the_image() {
    let image = Rgba8Image { width: 3, height: 2, pixels: (100u8..124).collect() };
    let twice = flip_image_y_rgba8(flip_image_y_rgba8(image.clone()));
    assert_eq!(twice, image);
}

#[test]
fn empty_images_stay_empty() {
    let flipped = flip_image_y_rgba8(Rgba8Image { width: 0, height: 5, pixels: Vec::new() });
    assert!(flipped.pixels.is_empty());
    assert_eq!(flipped.height, 5);
}
