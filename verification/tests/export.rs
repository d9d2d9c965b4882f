use raytracing::export::to_rgb_image;
use raytracing::framebuffer::Framebuffer;

#[test]
fn image_has_the_size_and_pixels_of_the_framebuffer() {
    let mut frame = Framebuffer::new(3, 2).unwrap();
    frame.write(0, (1, 2, 3));
    frame.write(2, (4, 5, 6));
    frame.write(4, (250, 128, 7));
    let picture = to_rgb_image(&frame).unwrap();
    assert_eq!(picture.image.dimensions(), (3, 2));
    assert_eq!(picture.image.get_pixel(0, 0).0, [1, 2, 3]);
    assert_eq!(picture.image.get_pixel(1, 0).0, [0, 0, 0]);
    assert_eq!(picture.image.get_pixel(2, 0).0, [4, 5, 6]);
    assert_eq!(picture.image.get_pixel(0, 1).0, [0, 0, 0]);
    assert_eq!(picture.image.get_pixel(1, 1).0, [250, 128, 7]);
    assert_eq!(picture.image.get_pixel(2, 1).0, [0, 0, 0]);
}

#[test]
fn image_bytes_are_the_channels_in_buffer_order() {
    let mut frame = Framebuffer::new(2, 2).unwrap();
    frame.write(1, (9, 8, 7));
    frame.write(3, (255, 0, 255));
    let picture = to_rgb_image(&frame).unwrap();
    assert_eq!(picture.image.as_raw(), &vec![0, 0, 0, 9, 8, 7, 0, 0, 0, 255, 0, 255]);
    assert_eq!(Some(picture.image.into_raw()), frame.to_rgb_bytes());
}

#[test]
fn tall_and_wide_images_keep_their_shape() {
    let mut wide = Framebuffer::new(5, 1).unwrap();
    wide.write(4, (1, 1, 1));
    let picture = to_rgb_image(&wide).unwrap();
    assert_eq!(picture.image.dimensions(), (5, 1));
    assert_eq!(picture.image.get_pixel(4, 0).0, [1, 1, 1]);
    let mut tall = Framebuffer::new(1, 5).unwrap();
    tall.write(4, (2, 2, 2));
    let picture = to_rgb_image(&tall).unwrap();
    assert_eq!(picture.image.dimensions(), (1, 5));
    assert_eq!(picture.image.get_pixel(0, 4).0, [2, 2, 2]);
}
