use geometrify::geometrify::{
    add_to_image, apply_points, calculate_color, calculate_difference,
    calculate_difference_image, evaluate_candidate, FilterError, Geometrify, Triangle,
};
use geometrify::raster::{Color, Image};
use geometrify::{
    CountingProgressReporter, DeterministicPointGenerator, Filter, Point, PointGenerator,
    RandomPointGenerator, SilentProgressReporter,
};

fn red() -> Color {
    Color { r: 255, g: 0, b: 0, a: 255 }
}

fn uniform_image(w: u32, h: u32, c: Color) -> Image {
    let mut img = Image::new(w, h);
    img.fill(c);
    img
}

fn varied_image(w: u32, h: u32) -> Image {
    let mut img = Image::new(w, h);
    for y in 0..h {
        for x in 0..w {
            let v = ((x * 37 + y * 101) % 256) as u8;
            img.set_pixel(x, y, Color { r: v, g: 255 - v, b: v / 2, a: 255 });
        }
    }
    img
}

#[test]
fn blank_canvas_is_zero_valued() {
    let img = Image::new(3, 2);
    for y in 0..2 {
        for x in 0..3 {
            assert_eq!(img.get_pixel(x, y), Color { r: 0, g: 0, b: 0, a: 0 });
        }
    }
}

#[test]
fn difference_image_counts_every_pixel() {
    let source = uniform_image(2, 2, red());
    let canvas = Image::new(2, 2);
    // Each pixel differs by 255 in red and 255 in alpha.
    assert_eq!(calculate_difference_image(&source, &canvas), 4 * 510);
}

#[test]
fn fill_color_is_bounding_box_mean() {
    let source = uniform_image(4, 4, red());
    let t = Triangle::new(
        Point { x: 0, y: 0 },
        Point { x: 3, y: 0 },
        Point { x: 0, y: 3 },
    );
    assert_eq!(calculate_color(&source, &t), red());
}

#[test]
fn fill_color_of_mixed_region_averages() {
    let mut source = Image::new(3, 3);
    source.fill(Color { r: 0, g: 0, b: 0, a: 0 });
    source.set_pixel(0, 0, Color { r: 10, g: 20, b: 30, a: 40 });
    source.set_pixel(1, 0, Color { r: 20, g: 40, b: 60, a: 80 });
    source.set_pixel(0, 1, Color { r: 30, g: 60, b: 90, a: 120 });
    source.set_pixel(1, 1, Color { r: 41, g: 81, b: 121, a: 161 });
    // The box of these vertices is walked as [0,2) x [0,2): exactly the four
    // pixels set above, averaged with floor division.
    let t = Triangle::new(
        Point { x: 0, y: 0 },
        Point { x: 2, y: 0 },
        Point { x: 0, y: 2 },
    );
    assert_eq!(
        calculate_color(&source, &t),
        Color { r: 25, g: 50, b: 75, a: 100 }
    );
}

#[test]
fn fill_color_of_degenerate_box_is_white() {
    let source = uniform_image(4, 4, red());
    // All vertices share one point: the box is empty.
    let t = Triangle::new(
        Point { x: 2, y: 2 },
        Point { x: 2, y: 2 },
        Point { x: 2, y: 2 },
    );
    assert_eq!(
        calculate_color(&source, &t),
        Color { r: 255, g: 255, b: 255, a: 255 }
    );
}

#[test]
fn candidate_score_equals_recomputed_difference() {
    let source = varied_image(6, 5);
    let mut canvas = Image::new(6, 5);
    let total = calculate_difference_image(&source, &canvas);

    let mut t = Triangle::new(
        Point { x: 0, y: 0 },
        Point { x: 5, y: 1 },
        Point { x: 2, y: 4 },
    );
    t.cache_double_area();
    let (colored, score) = evaluate_candidate(&source, &canvas, total, &t);
    add_to_image(&mut canvas, &colored);
    assert_eq!(score, calculate_difference_image(&source, &canvas));
}

#[test]
fn degenerate_candidate_is_passive() {
    let source = varied_image(4, 4);
    let canvas = Image::new(4, 4);
    let total = calculate_difference_image(&source, &canvas);
    let mut t = Triangle::new(
        Point { x: 0, y: 0 },
        Point { x: 2, y: 2 },
        Point { x: 3, y: 3 },
    );
    t.cache_double_area();
    t.set_color(red());
    assert_eq!(calculate_difference(&source, &canvas, total, &t), total);
}

#[test]
fn run_total_matches_canvas_difference() {
    let source = varied_image(8, 8);
    let mut gen = DeterministicPointGenerator::new(7);
    let mut pts = Vec::new();
    for _ in 0..(3 * 2 * 3) {
        pts.push(gen.next_point(8, 8));
    }
    let mut progress = SilentProgressReporter::new();
    let (canvas, total) = apply_points(&source, &pts, 2, 3, &mut progress);
    assert_eq!(total, calculate_difference_image(&source, &canvas));
}

#[test]
fn rerun_with_same_points_is_byte_identical() {
    let source = varied_image(8, 8);
    let mut gen = DeterministicPointGenerator::new(42);
    let mut pts = Vec::new();
    for _ in 0..(3 * 3 * 4) {
        pts.push(gen.next_point(8, 8));
    }
    let mut p1 = SilentProgressReporter::new();
    let mut p2 = SilentProgressReporter::new();
    let (canvas1, total1) = apply_points(&source, &pts, 3, 4, &mut p1);
    let (canvas2, total2) = apply_points(&source, &pts, 3, 4, &mut p2);
    assert_eq!(total1, total2);
    assert_eq!(canvas1.pixels, canvas2.pixels);
}

#[test]
fn rerun_with_same_seed_is_byte_identical() {
    let source = varied_image(8, 8);

    let mut filter1 = Geometrify::new(DeterministicPointGenerator::new(99), 5, 4);
    let mut r1 = SilentProgressReporter::new();
    let out1 = filter1.apply(&source, &mut r1);

    let mut filter2 = Geometrify::new(DeterministicPointGenerator::new(99), 5, 4);
    let mut r2 = SilentProgressReporter::new();
    let out2 = filter2.apply(&source, &mut r2);

    assert_eq!(out1.pixels, out2.pixels);
}

#[test]
fn deterministic_generator_repeats_its_sequence() {
    let mut g1 = DeterministicPointGenerator::new(5);
    let mut g2 = DeterministicPointGenerator::new(5);
    for _ in 0..50 {
        let p1 = g1.next_point(13, 7);
        let p2 = g2.next_point(13, 7);
        assert_eq!(p1, p2);
        assert!(p1.x >= 0 && p1.x < 13);
        assert!(p1.y >= 0 && p1.y < 7);
    }
}

#[test]
fn random_generator_respects_bounds() {
    let mut g = RandomPointGenerator::new();
    for _ in 0..200 {
        let p = g.next_point(7, 5);
        assert!(p.x >= 0 && p.x < 7);
        assert!(p.y >= 0 && p.y < 5);
    }
}

#[test]
fn end_to_end_uniform_red() {
    let source = uniform_image(4, 4, red());
    let initial = calculate_difference_image(&source, &Image::new(4, 4));

    let mut filter = Geometrify::new(RandomPointGenerator::new(), 1, 1);
    let mut reporter = CountingProgressReporter::new();
    let out = filter.apply(&source, &mut reporter);

    let resulting = calculate_difference_image(&source, &out);
    assert!(resulting <= initial);

    assert_eq!(reporter.init_calls, 1);
    assert_eq!(reporter.step_calls, 1);
    assert_eq!(reporter.finish_calls, 1);
    assert_eq!(reporter.announced, 1);
}

#[test]
fn zero_iterations_returns_blank_canvas() {
    let source = varied_image(4, 4);
    let mut filter = Geometrify::new(DeterministicPointGenerator::new(1), 0, 3);
    let mut reporter = CountingProgressReporter::new();
    let out = match filter.try_apply(&source, &mut reporter) {
        Ok(img) => img,
        Err(_) => panic!("zero iterations is a legal configuration"),
    };
    assert_eq!(out.pixels, Image::new(4, 4).pixels);
    assert_eq!(reporter.init_calls, 1);
    assert_eq!(reporter.step_calls, 0);
    assert_eq!(reporter.finish_calls, 1);
}

#[test]
fn zero_samples_fails_fast() {
    let source = varied_image(4, 4);
    let mut filter = Geometrify::new(DeterministicPointGenerator::new(1), 2, 0);
    let mut reporter = CountingProgressReporter::new();
    match filter.try_apply(&source, &mut reporter) {
        Ok(_) => panic!("a run without candidates must be rejected"),
        Err(e) => assert_eq!(e, FilterError::NoCandidateAvailable),
    }
    // Nothing happened: the reporter was never touched.
    assert_eq!(reporter.init_calls, 0);
    assert_eq!(reporter.step_calls, 0);
    assert_eq!(reporter.finish_calls, 0);
}

#[test]
fn totals_never_increase_with_degenerate_candidate_in_pool() {
    let source = varied_image(6, 6);
    // Hand-built candidate pool: in every iteration, candidate 0 is
    // degenerate (all vertices equal) and candidate 1 is a real triangle,
    // so the committed minimum can never exceed the running total.
    let corners = [
        Point { x: 0, y: 0 },
        Point { x: 5, y: 0 },
        Point { x: 0, y: 5 },
        Point { x: 5, y: 5 },
        Point { x: 2, y: 1 },
        Point { x: 4, y: 3 },
    ];
    let mut totals = Vec::new();
    for iters in 1..4u32 {
        let mut pts = Vec::new();
        for it in 0..iters {
            // Candidate 0: degenerate.
            let p = corners[(it as usize) % corners.len()];
            pts.push(p);
            pts.push(p);
            pts.push(p);
            // Candidate 1: a real triangle.
            pts.push(corners[(it as usize) % 4]);
            pts.push(corners[((it as usize) + 1) % 4]);
            pts.push(corners[((it as usize) + 2) % 4]);
        }
        let mut progress = SilentProgressReporter::new();
        let (_canvas, total) = apply_points(&source, &pts, iters, 2, &mut progress);
        totals.push(total);
    }
    assert!(totals[1] <= totals[0]);
    assert!(totals[2] <= totals[1]);
}

#[test]
fn generate_primitive_is_uncolored_and_in_bounds() {
    let mut filter = Geometrify::new(DeterministicPointGenerator::new(11), 1, 1);
    let t = filter.generate_primitive(9, 9);
    assert_eq!(t.get_color(), None);
    let bb = t.bounding_box();
    assert!(bb.top_left.x >= 0 && bb.bottom_right.x < 9);
    assert!(bb.top_left.y >= 0 && bb.bottom_right.y < 9);
}

#[test]
fn setters_update_parameters() {
    let mut filter = Geometrify::new(DeterministicPointGenerator::new(3), 10, 20);
    filter.set_iterations(4);
    filter.set_samples(6);
    let source = varied_image(5, 5);
    let mut reporter = CountingProgressReporter::new();
    let _ = filter.apply(&source, &mut reporter);
    assert_eq!(reporter.announced, 4);
    assert_eq!(reporter.step_calls, 4);
}
