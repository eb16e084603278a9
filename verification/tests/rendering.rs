use image::{DynamicImage, GenericImageView};
use raytracer::pixel::Pixel;
use raytracer::raster::can_hold_rgb8;
use raytracer::rendering::{assemble, render, render_in_threads, RenderError, RenderedStripe};
use raytracer::viewport::Viewport;

fn numbered_frame(width: u32, height: u32) -> Vec<Pixel> {
    let mut frame = Vec::new();
    for x in 0..width {
        for y in 0..height {
            frame.push(Pixel {
                red: x as u8,
                green: y as u8,
                blue: (x + y) as u8,
                alpha: 255,
            });
        }
    }
    frame
}

fn gamma_byte(linear: f32) -> u8 {
    (linear.min(1.0).max(0.0).powf(1.0 / 2.2) * 255.0).round() as u8
}

#[test]
fn test_can_render_scene() {
    let viewport = Viewport::new(800, 600).unwrap();
    let background = Pixel::rgb(gamma_byte(0.01), gamma_byte(0.02), gamma_byte(0.05));
    let frame = vec![background; 800 * 600];
    let img: DynamicImage = render_in_threads(&viewport, 8, &frame);
    assert_eq!(img.dimensions(), (800, 600));
    assert_eq!(img.get_pixel(0, 0).data, [31, 43, 65, 255]);
    assert_eq!(img.get_pixel(799, 599).data, [31, 43, 65, 255]);
    assert_eq!(img.get_pixel(100, 300).data, [31, 43, 65, 255]);
}

#[test]
fn one_worker_and_three_workers_give_the_same_image() {
    let viewport = Viewport::new(4, 3).unwrap();
    let mut frame: Vec<Pixel> = Vec::new();
    for x in 0..4u8 {
        for y in 0..3u8 {
            frame.push(Pixel::rgb(10 * x, 20 * y, x + y));
        }
    }
    let single = render_in_threads(&viewport, 1, &frame);
    let striped = render_in_threads(&viewport, 3, &frame);
    assert_eq!(single.dimensions(), (4, 3));
    assert_eq!(striped.dimensions(), (4, 3));
    for x in 0..4u32 {
        for y in 0..3u32 {
            assert_eq!(single.get_pixel(x, y), striped.get_pixel(x, y));
            assert_eq!(
                single.get_pixel(x, y).data,
                [10 * x as u8, 20 * y as u8, (x + y) as u8, 255]
            );
        }
    }
}

#[test]
fn rendering_twice_gives_the_same_bytes() {
    let viewport = Viewport::new(10, 4).unwrap();
    let frame = numbered_frame(10, 4);
    let first = render_in_threads(&viewport, 4, &frame);
    let second = render_in_threads(&viewport, 4, &frame);
    assert_eq!(first.raw_pixels(), second.raw_pixels());
}

#[test]
fn every_worker_count_that_fits_gives_the_same_bytes() {
    let viewport = Viewport::new(10, 4).unwrap();
    let frame = numbered_frame(10, 4);
    let single = render_in_threads(&viewport, 1, &frame);
    for workers in [2u32, 3, 4, 5, 6, 10] {
        let striped = render_in_threads(&viewport, workers, &frame);
        assert_eq!(single.raw_pixels(), striped.raw_pixels());
    }
    let bytes = single.raw_pixels();
    assert_eq!(bytes.len(), 10 * 4 * 3);
    // row-major, three bytes per pixel: the pixel of column 7, row 2
    assert_eq!(&bytes[(2 * 10 + 7) * 3..(2 * 10 + 7) * 3 + 3], &[7, 2, 9]);
}

#[test]
fn alpha_of_the_frame_is_not_stored() {
    let viewport = Viewport::new(2, 1).unwrap();
    let frame = vec![
        Pixel { red: 1, green: 2, blue: 3, alpha: 0 },
        Pixel { red: 4, green: 5, blue: 6, alpha: 77 },
    ];
    let image = render_in_threads(&viewport, 2, &frame);
    assert_eq!(image.get_pixel(0, 0).data, [1, 2, 3, 255]);
    assert_eq!(image.get_pixel(1, 0).data, [4, 5, 6, 255]);
}

#[test]
fn a_viewport_without_rows_renders_an_empty_image() {
    let viewport = Viewport::new(5, 0).unwrap();
    let image = render_in_threads(&viewport, 2, &Vec::new());
    assert_eq!(image.dimensions(), (5, 0));
}

#[test]
fn render_stores_a_stripe_from_its_first_column() {
    let viewport = Viewport::new(8, 2).unwrap();
    // columns 5, 6 and 7 of the viewport, each from the top row down
    let colors = vec![
        Pixel::rgb(50, 0, 0),
        Pixel::rgb(50, 1, 0),
        Pixel::rgb(60, 0, 0),
        Pixel::rgb(60, 1, 0),
        Pixel::rgb(70, 0, 0),
        Pixel::rgb(70, 1, 0),
    ];
    let image = render(&viewport, 5, 8, &colors);
    assert_eq!(image.dimensions(), (3, 2));
    assert!(image.as_rgb8().is_some());
    assert_eq!(image.get_pixel(0, 0).data, [50, 0, 0, 255]);
    assert_eq!(image.get_pixel(0, 1).data, [50, 1, 0, 255]);
    assert_eq!(image.get_pixel(1, 0).data, [60, 0, 0, 255]);
    assert_eq!(image.get_pixel(2, 1).data, [70, 1, 0, 255]);
}

#[test]
fn render_of_no_columns_is_an_empty_image() {
    let viewport = Viewport::new(8, 2).unwrap();
    let image = render(&viewport, 3, 3, &Vec::new());
    assert_eq!(image.dimensions(), (0, 2));
}

#[test]
fn assemble_without_stripes_is_opaque_black() {
    let viewport = Viewport::new(3, 2).unwrap();
    let image = assemble(&viewport, &Vec::new()).unwrap();
    assert_eq!(image.dimensions(), (3, 2));
    assert!(image.as_rgb8().is_some());
    for x in 0..3 {
        for y in 0..2 {
            assert_eq!(image.get_pixel(x, y).data, [0, 0, 0, 255]);
        }
    }
}

#[test]
fn assemble_places_each_stripe_at_its_offset() {
    let viewport = Viewport::new(5, 2).unwrap();
    let left = render(
        &viewport,
        0,
        2,
        &vec![Pixel::rgb(1, 1, 1), Pixel::rgb(1, 2, 1), Pixel::rgb(2, 1, 2), Pixel::rgb(2, 2, 2)],
    );
    let right = render(&viewport, 4, 5, &vec![Pixel::rgb(9, 1, 9), Pixel::rgb(9, 2, 9)]);
    let stripes = vec![
        RenderedStripe { image: left, offset: 0 },
        RenderedStripe { image: right, offset: 4 },
    ];
    let image = assemble(&viewport, &stripes).unwrap();
    assert_eq!(image.get_pixel(0, 0).data, [1, 1, 1, 255]);
    assert_eq!(image.get_pixel(0, 1).data, [1, 2, 1, 255]);
    assert_eq!(image.get_pixel(1, 1).data, [2, 2, 2, 255]);
    // no stripe covers columns 2 and 3
    assert_eq!(image.get_pixel(2, 0).data, [0, 0, 0, 255]);
    assert_eq!(image.get_pixel(3, 1).data, [0, 0, 0, 255]);
    assert_eq!(image.get_pixel(4, 0).data, [9, 1, 9, 255]);
    assert_eq!(image.get_pixel(4, 1).data, [9, 2, 9, 255]);
}

#[test]
fn a_later_stripe_lies_over_an_earlier_one() {
    let viewport = Viewport::new(3, 1).unwrap();
    let wide = render(
        &viewport,
        0,
        3,
        &vec![Pixel::rgb(1, 0, 0), Pixel::rgb(2, 0, 0), Pixel::rgb(3, 0, 0)],
    );
    let narrow = render(&viewport, 1, 2, &vec![Pixel::rgb(0, 9, 0)]);
    let stripes = vec![
        RenderedStripe { image: wide, offset: 0 },
        RenderedStripe { image: narrow, offset: 1 },
    ];
    let image = assemble(&viewport, &stripes).unwrap();
    assert_eq!(image.get_pixel(0, 0).data, [1, 0, 0, 255]);
    assert_eq!(image.get_pixel(1, 0).data, [0, 9, 0, 255]);
    assert_eq!(image.get_pixel(2, 0).data, [3, 0, 0, 255]);
}

#[test]
fn assemble_names_the_first_stripe_that_does_not_fit() {
    let viewport = Viewport::new(4, 2).unwrap();
    let black = Pixel::rgb(0, 0, 0);
    let fitting = render(&viewport, 0, 2, &vec![black; 4]);
    let too_far_right = render(&viewport, 0, 2, &vec![black; 4]);
    let also_bad = render(&viewport, 0, 2, &vec![black; 4]);
    let stripes = vec![
        RenderedStripe { image: fitting, offset: 2 },
        RenderedStripe { image: too_far_right, offset: 3 },
        RenderedStripe { image: also_bad, offset: 4 },
    ];
    match assemble(&viewport, &stripes) {
        Err(error) => assert_eq!(error, RenderError::StripeNotCopied(1)),
        Ok(_) => panic!("a stripe that leaves the image was copied"),
    }
}

#[test]
fn assemble_refuses_a_stripe_that_is_too_high() {
    let viewport = Viewport::new(4, 2).unwrap();
    let tall = Viewport::new(4, 3).unwrap();
    let stripe = render(&tall, 0, 1, &vec![Pixel::rgb(0, 0, 0); 3]);
    let stripes = vec![RenderedStripe { image: stripe, offset: 0 }];
    match assemble(&viewport, &stripes) {
        Err(error) => assert_eq!(error, RenderError::StripeNotCopied(0)),
        Ok(_) => panic!("a stripe that leaves the image was copied"),
    }
}

#[test]
fn assemble_refuses_an_offset_beyond_every_image() {
    let viewport = Viewport::new(4, 2).unwrap();
    let stripe = render(&viewport, 0, 2, &vec![Pixel::rgb(0, 0, 0); 4]);
    let stripes = vec![RenderedStripe { image: stripe, offset: u32::MAX }];
    match assemble(&viewport, &stripes) {
        Err(error) => assert_eq!(error, RenderError::StripeNotCopied(0)),
        Ok(_) => panic!("a stripe that leaves the image was copied"),
    }
}

#[test]
fn assemble_takes_stripes_that_were_not_rendered_here() {
    let viewport = Viewport::new(2, 1).unwrap();
    let mut foreign = DynamicImage::new_rgba8(1, 1);
    image::GenericImage::put_pixel(&mut foreign, 0, 0, image::Rgba { data: [7, 8, 9, 10] });
    let stripes = vec![RenderedStripe { image: foreign, offset: 1 }];
    let image = assemble(&viewport, &stripes).unwrap();
    assert_eq!(image.get_pixel(0, 0).data, [0, 0, 0, 255]);
    assert_eq!(image.get_pixel(1, 0).data, [7, 8, 9, 255]);
}

#[test]
fn an_image_must_fit_in_one_vector() {
    assert!(can_hold_rgb8(0, 0));
    assert!(can_hold_rgb8(800, 600));
    assert!(can_hold_rgb8(u32::MAX, 0));
    assert_eq!(
        can_hold_rgb8(u32::MAX, u32::MAX),
        (3u128 * u32::MAX as u128 * u32::MAX as u128) <= isize::MAX as u128
    );
    assert_eq!(can_hold_rgb8(u32::MAX, 1), 3 * (u32::MAX as u128) <= isize::MAX as u128);
}
