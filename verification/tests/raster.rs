use embedded_graphics::framebuffer::Framebuffer;
use embedded_graphics::geometry::Point;
use embedded_graphics::image::GetPixel;
use embedded_graphics::mono_font::ascii::FONT_10X20;
use embedded_graphics::mono_font::MonoTextStyle;
use embedded_graphics::pixelcolor::raw::{LittleEndian, RawU16};
use embedded_graphics::pixelcolor::Rgb565 as EgRgb565;
use embedded_graphics::prelude::RawData;
use embedded_graphics::geometry::{Dimensions, Size};
use embedded_graphics::primitives::{Circle, Primitive, PrimitiveStyle, Rectangle};
use embedded_graphics::text::Text;
use embedded_graphics::Drawable;
use pico_canvas::canvas::{FrameBuffer, RectStyle, AREA, CENTER_X, CENTER_Y};
use pico_canvas::color::{Rgb565, BLACK, RED, WHITE};

type Reference = Framebuffer<EgRgb565, RawU16, LittleEndian, 240, 320, 153600>;

fn c(raw: u16) -> Rgb565 {
    Rgb565::from_raw(raw)
}

fn eg(raw: u16) -> EgRgb565 {
    EgRgb565::from(RawU16::new(raw))
}

fn assert_same(canvas: &FrameBuffer, reference: &Reference) {
    for y in 0..320 {
        for x in 0..240 {
            let expected = RawU16::from(reference.pixel(Point::new(x, y)).unwrap()).into_inner();
            assert_eq!(canvas.pixel(x, y), Some(c(expected)), "at ({}, {})", x, y);
        }
    }
}

fn count(fb: &FrameBuffer, color: Rgb565) -> usize {
    fb.present().pixels.iter().filter(|p| **p == color).count()
}

fn reference_circle(reference: &mut Reference, cx: i32, cy: i32, radius: u32, raw: u16, stroke: u32) {
    Circle::new(Point::new(cx - radius as i32, cy - radius as i32), radius * 2)
        .into_styled(PrimitiveStyle::with_stroke(eg(raw), stroke))
        .draw(reference)
        .unwrap();
}

fn reference_text(reference: &mut Reference, x: i32, y: i32, text: &str, raw: u16) {
    Text::new(text, Point::new(x, y), MonoTextStyle::new(&FONT_10X20, eg(raw)))
        .draw(reference)
        .unwrap();
}

#[test]
fn circle_matches_embedded_graphics() {
    for (cx, cy, radius, stroke) in [
        (119, 159, 30u32, 2u32),
        (100, 100, 1, 1),
        (50, 60, 0, 2),
        (10, 10, 5, 0),
        (149, 159, 30, 2),
        (119, 159, 335, 2),
        (0, 0, 40, 3),
        (239, 319, 17, 5),
        (-100, -100, 30, 2),
        (500, 160, 300, 4),
    ] {
        let mut canvas = FrameBuffer::new(c(BLACK));
        let mut reference = Reference::new();
        canvas.draw_circle(cx, cy, radius, c(RED), stroke);
        reference_circle(&mut reference, cx, cy, radius, RED, stroke);
        assert_same(&canvas, &reference);
    }
}

#[test]
fn circle_outline_leaves_the_middle() {
    let mut canvas = FrameBuffer::new(c(BLACK));
    canvas.draw_circle(100, 100, 30, c(RED), 2);
    assert_eq!(canvas.pixel(100, 100), Some(c(BLACK)));
    assert_eq!(canvas.pixel(70, 100), Some(c(RED)));
    assert_eq!(canvas.pixel(68, 100), Some(c(BLACK)));
    let lit = count(&canvas, c(RED));
    assert!(lit > 150 && lit < 600, "{}", lit);
    assert_eq!(count(&canvas, c(BLACK)), AREA - lit);
}

#[test]
fn text_matches_embedded_graphics() {
    for (x, y, text) in [
        (10, 20, "0"),
        (10, 20, "-=Ewen=-"),
        (47, 161, "-=Ewen=-"),
        (10, 40, "12,345"),
        (-15, 10, "clipped at the left and top"),
        (200, 325, "clipped at the right and bottom"),
        (0, 0, ""),
        (5, 100, "two\nlines"),
        (1000, 1000, "nowhere"),
    ] {
        let mut canvas = FrameBuffer::new(c(BLACK));
        let mut reference = Reference::new();
        canvas.draw_text(x, y, &text.as_bytes().to_vec(), c(WHITE));
        reference_text(&mut reference, x, y, text, WHITE);
        assert_same(&canvas, &reference);
    }
}

#[test]
fn text_keeps_to_its_box() {
    let mut canvas = FrameBuffer::new(c(BLACK));
    canvas.draw_text(10, 20, &b"A".to_vec(), c(RED));
    let mut lit = 0;
    for y in 0..320 {
        for x in 0..240 {
            if canvas.pixel(x, y) == Some(c(RED)) {
                lit += 1;
                assert!((10..20).contains(&x) && (5..25).contains(&y));
            }
        }
    }
    assert!(lit > 10);
}

#[test]
fn text_is_laid_over_what_was_there() {
    let mut canvas = FrameBuffer::new(c(WHITE));
    let mut reference = Reference::new();
    canvas.draw_circle(60, 30, 25, c(RED), 2);
    canvas.draw_text(20, 40, &b"over".to_vec(), c(BLACK));
    for y in 0..320 {
        for x in 0..240 {
            reference.set_pixel(Point::new(x, y), eg(WHITE));
        }
    }
    reference_circle(&mut reference, 60, 30, 25, RED, 2);
    reference_text(&mut reference, 20, 40, "over", BLACK);
    assert_same(&canvas, &reference);
}

#[test]
fn filled_rectangle_matches_embedded_graphics() {
    for (x, y, w, h) in [
        (10, 20, 80u32, 20u32),
        (0, 0, 240, 320),
        (-5, -5, 10, 10),
        (236, 316, 4, 4),
        (238, 318, 4, 4),
        (100, 100, 0, 5),
        (100, 100, 5, 0),
        (47, 146, 80, 20),
        (300, 10, 5, 5),
        (-20, 400, 500, 3),
    ] {
        let mut canvas = FrameBuffer::new(c(BLACK));
        let mut reference = Reference::new();
        canvas.draw_rectangle(x, y, w, h, c(RED), RectStyle::Filled);
        Rectangle::new(Point::new(x, y), Size::new(w, h))
            .into_styled(PrimitiveStyle::with_fill(eg(RED)))
            .draw(&mut reference)
            .unwrap();
        assert_same(&canvas, &reference);
    }
}

#[test]
fn stroked_rectangle_matches_a_one_pixel_stroke() {
    for (x, y, w, h) in [
        (10, 20, 80u32, 20u32),
        (0, 0, 240, 320),
        (-5, -5, 10, 10),
        (236, 316, 4, 4),
        (50, 50, 1, 1),
        (50, 50, 2, 2),
        (50, 50, 1, 7),
        (50, 50, 3, 3),
    ] {
        let mut canvas = FrameBuffer::new(c(BLACK));
        let mut reference = Reference::new();
        canvas.draw_rectangle(x, y, w, h, c(WHITE), RectStyle::Stroked);
        Rectangle::new(Point::new(x, y), Size::new(w, h))
            .into_styled(PrimitiveStyle::with_stroke(eg(WHITE), 1))
            .draw(&mut reference)
            .unwrap();
        assert_same(&canvas, &reference);
    }
}

#[test]
fn centre_is_the_middle_of_the_bounding_box() {
    let centre = Reference::new().bounding_box().center();
    assert_eq!((CENTER_X, CENTER_Y), (centre.x, centre.y));
    assert_eq!((CENTER_X, CENTER_Y), (119, 159));
}
