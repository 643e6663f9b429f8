use profiler_render::color::{color_for, parse_trail_color, section_color, tab10, text_color_on};
use profiler_render::{parse_color, Rgb};

#[test]
fn parse_hex_color() {
    assert_eq!(parse_color("#d62728"), Some(Rgb::from_rgb(0xd6, 0x27, 0x28)));
    assert_eq!(parse_color("#1f77b4"), Some(Rgb::from_rgb(0x1f, 0x77, 0xb4)));
}

#[test]
fn parse_cycle_color() {
    assert_eq!(parse_color("C0"), Some(tab10(0)));
    assert_eq!(parse_color("C3"), Some(tab10(3)));
    assert_eq!(parse_color("C12"), Some(tab10(2)));
}

#[test]
fn parse_named_and_unknown() {
    assert_eq!(parse_color("k"), Some(Rgb::from_gray(20)));
    assert_eq!(parse_color(""), None);
    assert_eq!(parse_color("chartreuse"), None);
}

#[test]
fn color_for_falls_back_to_palette() {
    assert_eq!(color_for("", 1), tab10(1));
    assert_eq!(color_for("bogus", 5), tab10(5));
    assert_eq!(color_for("#000000", 0), Rgb::from_rgb(0, 0, 0));
}

#[test]
fn color_texts_at_the_edges() {
    assert_eq!(parse_color("  #AbCdEf "), Some(Rgb::from_rgb(0xab, 0xcd, 0xef)));
    assert_eq!(parse_color("#12345"), None);
    assert_eq!(parse_color("#12345g"), None);
    assert_eq!(parse_color("#éé12"), None);
    assert_eq!(parse_color("#+f0102"), None);
    assert_eq!(parse_color("#+f+f+f"), None);
    assert_eq!(parse_trail_color("#+f+f+f"), Rgb::from_gray(200));
    assert_eq!(parse_color("C+4"), None);
    assert_eq!(parse_color("C04"), Some(tab10(4)));
    assert_eq!(parse_color("C"), None);
    assert_eq!(parse_color("C-1"), None);
    assert_eq!(parse_color("w"), Some(Rgb::from_gray(255)));
    assert_eq!(parse_color("m"), Some(tab10(6)));
    assert_eq!(parse_color("c"), Some(tab10(9)));
    assert_eq!(parse_color("y"), Some(tab10(8)));
    assert_eq!(tab10(17), tab10(7));
}

#[test]
fn trail_and_banner_colors_have_defaults() {
    assert_eq!(parse_trail_color("#010203"), Rgb::from_rgb(1, 2, 3));
    assert_eq!(parse_trail_color("C0"), Rgb::from_gray(200));
    assert_eq!(parse_trail_color(""), Rgb::from_gray(200));
    assert_eq!(section_color("C1"), tab10(1));
    assert_eq!(section_color("?"), Rgb::from_rgb(0x33, 0x44, 0x55));
}

#[test]
fn text_stands_out_on_its_background() {
    assert_eq!(text_color_on(Rgb::from_gray(127)), Rgb::from_gray(20));
    assert_eq!(text_color_on(Rgb::from_gray(126)), Rgb::from_gray(255));
}
