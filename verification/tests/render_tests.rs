use sutty::color::{vt100_bg_to_egui, vt100_fg_to_egui, Rgba, TermColor};
use sutty::icon::load_icon;
use sutty::term::{row_runs, text_input_bytes, trim_end_text, TermCell};

fn rgb(r: u8, g: u8, b: u8) -> Rgba {
    Rgba { r, g, b, a: 255 }
}

#[test]
fn fg_colors() {
    assert_eq!(vt100_fg_to_egui(TermColor::Default), rgb(200, 210, 200));
    assert_eq!(vt100_fg_to_egui(TermColor::Idx(0)), rgb(0, 0, 0));
    assert_eq!(vt100_fg_to_egui(TermColor::Idx(1)), rgb(205, 0, 0));
    assert_eq!(vt100_fg_to_egui(TermColor::Idx(15)), rgb(255, 255, 255));
    assert_eq!(vt100_fg_to_egui(TermColor::Idx(16)), rgb(0, 0, 0));
    assert_eq!(vt100_fg_to_egui(TermColor::Idx(196)), rgb(255, 0, 0));
    assert_eq!(vt100_fg_to_egui(TermColor::Idx(231)), rgb(255, 255, 255));
    assert_eq!(vt100_fg_to_egui(TermColor::Idx(232)), rgb(8, 8, 8));
    assert_eq!(vt100_fg_to_egui(TermColor::Idx(255)), rgb(238, 238, 238));
    assert_eq!(vt100_fg_to_egui(TermColor::Rgb(1, 2, 3)), rgb(1, 2, 3));
}

#[test]
fn bg_colors() {
    assert_eq!(vt100_bg_to_egui(TermColor::Default), Rgba { r: 0, g: 0, b: 0, a: 0 });
    assert_eq!(vt100_bg_to_egui(TermColor::Idx(1)), rgb(205, 50, 50));
    assert_eq!(vt100_bg_to_egui(TermColor::Idx(9)), rgb(255, 80, 80));
    assert_eq!(vt100_bg_to_egui(TermColor::Idx(21)), rgb(0, 0, 255));
    assert_eq!(vt100_bg_to_egui(TermColor::Idx(244)), rgb(128, 128, 128));
    assert_eq!(vt100_bg_to_egui(TermColor::Rgb(9, 8, 7)), rgb(9, 8, 7));
}

fn ico(entries: &[(u8, u8, u16, u32, u32)], data: &[u8]) -> Vec<u8> {
    let mut v = vec![0, 0, 1, 0, entries.len() as u8, 0];
    for &(w, h, bpp, size, off) in entries {
        v.extend_from_slice(&[w, h, 0, 0, 1, 0]);
        v.extend_from_slice(&bpp.to_le_bytes());
        v.extend_from_slice(&size.to_le_bytes());
        v.extend_from_slice(&off.to_le_bytes());
    }
    v.extend_from_slice(data);
    v
}

fn dib(w: u32, h: u32, fill: u8) -> Vec<u8> {
    let mut d = vec![0u8; 40];
    d[0] = 40;
    for i in 0..(w * h) {
        d.extend_from_slice(&[fill, fill + 1, fill + 2, i as u8]);
    }
    d
}

#[test]
fn icon_picks_largest_32_bit_image() {
    let small = dib(1, 1, 10);
    let big = dib(2, 2, 20);
    let header = 6 + 3 * 16;
    let off_small = header as u32;
    let off_big = off_small + small.len() as u32;
    let mut data = small.clone();
    data.extend_from_slice(&big);
    let bytes = ico(
        &[(1, 1, 32, small.len() as u32, off_small), (2, 2, 32, big.len() as u32, off_big), (4, 4, 24, 10, 0)],
        &data,
    );
    let icon = load_icon(&bytes).unwrap();
    assert_eq!((icon.width, icon.height), (2, 2));
    assert_eq!(icon.rgba.len(), 16);
    // Stored rows run bottom-up: the top row of the icon is stored last.
    assert_eq!(&icon.rgba[0..4], &[22, 21, 20, 2]);
    assert_eq!(&icon.rgba[4..8], &[22, 21, 20, 3]);
    assert_eq!(&icon.rgba[8..12], &[22, 21, 20, 0]);
    assert_eq!(&icon.rgba[12..16], &[22, 21, 20, 1]);
}

#[test]
fn icon_rows_come_out_upright() {
    // A 3 by 2 image: stored bottom row has alphas 0, 1, 2; top row 3, 4, 5.
    let d = dib(3, 2, 30);
    let bytes = ico(&[(3, 2, 32, d.len() as u32, 22)], &d);
    let icon = load_icon(&bytes).unwrap();
    assert_eq!((icon.width, icon.height), (3, 2));
    let alphas: Vec<u8> = icon.rgba.chunks(4).map(|p| p[3]).collect();
    assert_eq!(alphas, vec![3, 4, 5, 0, 1, 2]);
    assert_eq!(&icon.rgba[0..3], &[32, 31, 30]);
}

#[test]
fn icon_first_of_equal_sizes_wins() {
    let a = dib(1, 1, 10);
    let b = dib(1, 1, 50);
    let off_a = (6 + 2 * 16) as u32;
    let off_b = off_a + a.len() as u32;
    let mut data = a.clone();
    data.extend_from_slice(&b);
    let bytes = ico(&[(1, 1, 32, a.len() as u32, off_a), (1, 1, 32, b.len() as u32, off_b)], &data);
    let icon = load_icon(&bytes).unwrap();
    assert_eq!(&icon.rgba[0..3], &[12, 11, 10]);
}

#[test]
fn icon_rejections() {
    assert!(load_icon(&[0, 0, 1]).is_none());
    assert!(load_icon(&[0, 0, 1, 0, 0, 0]).is_none());
    // only a 24-bit image
    let d = dib(1, 1, 1);
    let bytes = ico(&[(1, 1, 24, d.len() as u32, 22)], &d);
    assert!(load_icon(&bytes).is_none());
    // data out of bounds
    let bytes = ico(&[(1, 1, 32, 1000, 22)], &d);
    assert!(load_icon(&bytes).is_none());
    // DIB too short for its pixels
    let short = dib(1, 1, 1)[..42].to_vec();
    let bytes = ico(&[(1, 1, 32, short.len() as u32, 22)], &short);
    assert!(load_icon(&bytes).is_none());
    // count larger than the directory present
    let bytes = vec![0, 0, 1, 0, 5, 0, 1, 2];
    assert!(load_icon(&bytes).is_none());
}

#[test]
fn icon_zero_size_means_256() {
    let d = dib(256, 1, 0);
    let mut bytes = ico(&[(0, 1, 32, d.len() as u32, 22)], &d);
    bytes[7] = 1;
    let icon = load_icon(&bytes).unwrap();
    assert_eq!((icon.width, icon.height), (256, 1));
    assert_eq!(icon.rgba.len(), 1024);
}

fn cell(ch: char, fg: Rgba, bg: Rgba) -> TermCell {
    TermCell { ch, fg, bg }
}

#[test]
fn rows_group_colours_and_trim() {
    let d = rgb(200, 210, 200);
    let t = Rgba { r: 0, g: 0, b: 0, a: 0 };
    let red = rgb(255, 0, 0);
    let cells = vec![cell('a', d, t), cell('b', d, t), cell('c', red, t), cell(' ', red, t), cell(' ', red, t)];
    let runs = row_runs(&cells, None);
    assert_eq!(runs.len(), 2);
    assert_eq!(runs[0].text, "ab");
    assert_eq!(runs[0].fg, d);
    assert_eq!(runs[1].text, "c");
    assert_eq!(runs[1].fg, red);
    let runs = row_runs(&cells, Some(4));
    assert_eq!(runs[1].text, "c ▌");
    let blank = vec![cell(' ', d, t), cell(' ', d, t)];
    assert!(row_runs(&blank, None).is_empty());
    let first_red = vec![cell('x', red, t)];
    let runs = row_runs(&first_red, None);
    assert_eq!(runs.len(), 1);
    assert_eq!(runs[0].text, "x");
}

#[test]
fn trimming_and_text_input() {
    assert_eq!(trim_end_text("ab \t\u{3000}"), "ab");
    assert_eq!(trim_end_text("   "), "");
    assert_eq!(trim_end_text(" a"), " a");
    assert_eq!(text_input_bytes("hé"), Some("hé".as_bytes().to_vec()));
    assert_eq!(text_input_bytes(""), None);
    assert_eq!(text_input_bytes("\u{1b}[A"), None);
}
