//! The record-per-line level format: tags, field counts, decimal values,
//! ignored lines and fatal malformations.

use geometry_dash::game::Game;
use geometry_dash::level::parse_level;
use geometry_dash::vector::Vector;

/// Pixels to sub-pixel units.
fn px(v: i64) -> i64 {
    v * 2000
}

#[test]
fn parses_each_record_kind() {
    let text = b"1,500,800,100,20\n2,600,918,60,60,false\n3,700,500,100\n";
    let data = parse_level(text).unwrap();
    assert_eq!(data.blocks.len(), 1);
    assert_eq!(data.spikes.len(), 1);
    assert_eq!(data.orbs.len(), 1);

    assert_eq!(data.blocks[0].pos, Vector::new(px(500), px(800)));
    assert_eq!(data.blocks[0].size, Vector::new(px(100), px(20)));

    assert_eq!(data.spikes[0].pos, Vector::new(px(600), px(918)));
    assert_eq!(data.spikes[0].size, Vector::new(px(60), px(60)));
    assert!(!data.spikes[0].flip);

    assert_eq!(data.orbs[0].pos, Vector::new(px(700), px(500)));
    assert_eq!(data.orbs[0].d, px(100));
    assert!(!data.orbs[0].activated);
}

#[test]
fn keeps_records_in_order_of_appearance() {
    let text = b"1,100,800,10,10\n3,50,50,10\n1,200,800,10,10\n1,300,800,10,10";
    let data = parse_level(text).unwrap();
    assert_eq!(data.blocks.len(), 3);
    assert_eq!(data.blocks[0].pos.x, px(100));
    assert_eq!(data.blocks[1].pos.x, px(200));
    assert_eq!(data.blocks[2].pos.x, px(300));
    assert_eq!(data.orbs.len(), 1);
}

#[test]
fn fractional_pixels_are_exact_units() {
    let text = b"3,700.5,500.25,100.125";
    let data = parse_level(text).unwrap();
    assert_eq!(data.orbs[0].pos.x, 1_401_000);
    assert_eq!(data.orbs[0].pos.y, 1_000_500);
    assert_eq!(data.orbs[0].d, 200_250);
}

#[test]
fn negative_coordinates_are_accepted() {
    let text = b"1,-10,800,20,20";
    let data = parse_level(text).unwrap();
    assert_eq!(data.blocks[0].pos.x, px(-10));
}

#[test]
fn unknown_numeric_tags_are_ignored() {
    let text = b"9,whatever,junk\n1,100,800,10,10\n0.5,also,ignored";
    let data = parse_level(text).unwrap();
    assert_eq!(data.blocks.len(), 1);
    assert_eq!(data.spikes.len(), 0);
    assert_eq!(data.orbs.len(), 0);
}

#[test]
fn malformed_fields_reject_the_level() {
    assert!(parse_level(b"1,abc,800,10,10").is_none());
    assert!(parse_level(b"x,100,800,10,10").is_none());
    assert!(parse_level(b"1,100,800,10").is_none());
    assert!(parse_level(b"1,100,800,10,10,extra").is_none());
    assert!(parse_level(b"2,600,918,60,60,maybe").is_none());
    assert!(parse_level(b"1,100,800,10,10\n\n1,200,800,10,10").is_none());
    assert!(parse_level(b"3,1.2345,500,100").is_none());
    assert!(parse_level(b"3,12.,500,100").is_none());
    assert!(parse_level(b"3,--5,500,100").is_none());
}

#[test]
fn out_of_range_values_reject_the_level() {
    // 99,999,999 px does not fit the coordinate range.
    assert!(parse_level(b"1,99999999,800,10,10").is_none());
    // A block reaching past the range boundary is no better.
    assert!(parse_level(b"1,999999,800,999999,10").is_none());
    // Negative sizes never form a well-formed shape.
    assert!(parse_level(b"1,100,800,-10,10").is_none());
}

#[test]
fn carriage_returns_and_trailing_newline_are_tolerated() {
    let text = b"1,100,800,10,10\r\n3,50,50,10\r\n";
    let data = parse_level(text).unwrap();
    assert_eq!(data.blocks.len(), 1);
    assert_eq!(data.orbs.len(), 1);
}

#[test]
fn empty_text_is_an_empty_level() {
    let data = parse_level(b"").unwrap();
    assert!(data.blocks.is_empty());
    assert!(data.spikes.is_empty());
    assert!(data.orbs.is_empty());
}

#[test]
fn initialize_level_installs_the_level_and_counts_the_attempt() {
    let mut g = Game::new();
    let ok = g.initialize_level(b"1,500,800,100,20\n2,600,918,60,60,true\n");
    assert!(ok);
    assert_eq!(g.attempt_count, 1);
    assert!(g.frozen);
    assert!(!g.victory);
    assert_eq!(g.blocks.len(), 1);
    assert_eq!(g.spikes.len(), 1);
    assert!(g.spikes[0].flip);
    assert_eq!(g.player.pos, Vector::new(px(384), px(893)));

    // A malformed level leaves everything exactly as it was.
    let ok2 = g.initialize_level(b"1,oops");
    assert!(!ok2);
    assert_eq!(g.attempt_count, 1);
    assert_eq!(g.blocks.len(), 1);
}

#[test]
fn empty_level_wins_on_the_first_tick() {
    let mut g = Game::new();
    assert!(g.initialize_level(b""));
    g.frozen = false;
    g.update();
    assert!(g.victory);
    assert!(g.frozen);
}
