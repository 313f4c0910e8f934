use nbody::helper::{plot_arc, plot_pixel, plot_pixel_signed, symetric_pixel, HEIGHT, WIDTH};
use nbody::ui::{dda_line, rectangle};

fn blank() -> Vec<u32> {
    vec![0u32; WIDTH * HEIGHT]
}

fn painted(buf: &[u32]) -> Vec<(usize, usize)> {
    let mut pts = Vec::new();
    for y in 0..HEIGHT {
        for x in 0..WIDTH {
            if buf[y * WIDTH + x] != 0 {
                pts.push((x, y));
            }
        }
    }
    pts.sort();
    pts
}

#[test]
fn plot_pixel_writes_exact_index() {
    let mut buf = blank();
    plot_pixel(&mut buf, 3, 2, 0xff00ff00);
    assert_eq!(buf[2 * WIDTH + 3], 0xff00ff00);
    assert_eq!(painted(&buf), vec![(3, 2)]);
}

#[test]
fn plot_pixel_clips_out_of_range() {
    let mut buf = blank();
    plot_pixel(&mut buf, WIDTH, 0, 0xffffffff);
    plot_pixel(&mut buf, 0, HEIGHT, 0xffffffff);
    plot_pixel(&mut buf, WIDTH + 100, HEIGHT + 100, 0xffffffff);
    assert!(buf.iter().all(|&c| c == 0));
    plot_pixel(&mut buf, WIDTH - 1, HEIGHT - 1, 0xffffffff);
    assert_eq!(buf[HEIGHT * WIDTH - 1], 0xffffffff);
    assert_eq!(painted(&buf), vec![(WIDTH - 1, HEIGHT - 1)]);
}

#[test]
fn plot_pixel_signed_rejects_negative() {
    let mut buf = blank();
    plot_pixel_signed(&mut buf, -1, 5, 0xffffffff);
    plot_pixel_signed(&mut buf, 5, -1, 0xffffffff);
    assert!(buf.iter().all(|&c| c == 0));
    plot_pixel_signed(&mut buf, 5, 6, 0xff123456);
    assert_eq!(painted(&buf), vec![(5, 6)]);
}

#[test]
fn symetric_pixel_all_quadrants() {
    let mut buf = blank();
    symetric_pixel(&mut buf, 3, 1, 100, 100, 1, true, true, true, true);
    let mut expect = vec![
        (97, 99),
        (99, 97),
        (101, 103),
        (103, 101),
        (97, 101),
        (99, 103),
        (101, 97),
        (103, 99),
    ];
    expect.sort();
    assert_eq!(painted(&buf), expect);
}

#[test]
fn symetric_pixel_single_quadrant() {
    let mut buf = blank();
    symetric_pixel(&mut buf, 3, 1, 100, 100, 1, false, true, false, false);
    assert_eq!(painted(&buf), vec![(97, 99), (99, 97)]);
}

#[test]
fn plot_arc_radius_three() {
    let mut buf = blank();
    plot_arc(&mut buf, 100, 100, 3, 1, true, true, true, true);
    // sweep offsets (3,0), (3,1), (2,2), reflected eight ways
    let mut expect = vec![
        (97, 99),
        (97, 100),
        (97, 101),
        (98, 98),
        (98, 102),
        (99, 97),
        (99, 103),
        (100, 97),
        (100, 103),
        (101, 97),
        (101, 103),
        (102, 98),
        (102, 102),
        (103, 99),
        (103, 100),
        (103, 101),
    ];
    expect.sort();
    assert_eq!(painted(&buf), expect);
}

#[test]
fn dda_line_exact_pixels() {
    let mut buf = blank();
    dda_line(&mut buf, 0, 0, 5, 2, 1);
    assert_eq!(
        painted(&buf),
        vec![(0, 0), (1, 0), (2, 1), (3, 1), (4, 2), (5, 2)]
    );
}

#[test]
fn dda_line_plots_both_endpoints() {
    let mut buf = blank();
    dda_line(&mut buf, 500, 300, 7, 650, 1);
    assert_eq!(buf[300 * WIDTH + 500], 1);
    assert_eq!(buf[650 * WIDTH + 7], 1);

    let mut buf = blank();
    dda_line(&mut buf, 5, 2, 0, 0, 1);
    assert_eq!(buf[2 * WIDTH + 5], 1);
    assert_eq!(buf[0], 1);
}

#[test]
fn dda_line_single_point() {
    let mut buf = blank();
    dda_line(&mut buf, 3, 3, 3, 3, 9);
    assert_eq!(painted(&buf), vec![(3, 3)]);
}

#[test]
fn dda_line_clips_off_canvas_part() {
    let mut buf = blank();
    dda_line(&mut buf, -5, -5, 2, 2, 1);
    assert_eq!(painted(&buf), vec![(0, 0), (1, 1), (2, 2)]);
}

#[test]
fn rectangle_outline_exact() {
    let mut buf = blank();
    rectangle(&mut buf, 10, 50, 20, 10, 1);
    // the four segments (10,50)-(30,50)-(30,40)-(10,40)-(10,50)
    let mut expect = Vec::new();
    for x in 10..=30 {
        expect.push((x, 40));
        expect.push((x, 50));
    }
    for y in 41..50 {
        expect.push((10usize, y));
        expect.push((30usize, y));
    }
    expect.sort();
    assert_eq!(painted(&buf), expect);
}
