use flowchart::block::{Block, BlockBuilder, BlockKind};
use flowchart::config::{Config, ConfigBuilder, ConfigurationError, Slant};
use flowchart::svg::SvgShape;

fn defaults() -> Config {
    ConfigBuilder::new().build().unwrap()
}

fn build(config: &Config, kind: BlockKind, content: &str) -> Block {
    BlockBuilder::new(config).try_build(kind, String::from(content)).unwrap()
}

fn size(config: &Config, kind: BlockKind, content: &str) -> (usize, usize) {
    let block = build(config, kind, content);
    (block.width(), block.height())
}

fn tight() -> Config {
    ConfigBuilder::new().grid_size(1).min_width(1).min_height(1).build().unwrap()
}

#[test]
fn default_settings() {
    let config = defaults();
    assert_eq!(config.grid_size(), 20);
    assert_eq!(config.font_size(), 12);
    assert_eq!(config.min_widht(), 200);
    assert_eq!(config.min_height(), 40);
    assert_eq!(config.theta(), Slant { run: 332_273, rise: 1_000_000 });
    assert_eq!(config.distance(), 20);
}

#[test]
fn default_slant_is_the_cotangent_of_five_quarters() {
    let slant = defaults().theta();
    let cot = slant.run as f64 / slant.rise as f64;
    assert!((cot - 1.0 / 1.25f64.tan()).abs() < 1e-6);
}

#[test]
fn overrides_replace_single_settings() {
    let config = ConfigBuilder::new()
        .grid_size(10)
        .font_size(20)
        .min_width(30)
        .min_height(40)
        .theta(Slant { run: 1, rise: 2 })
        .build()
        .unwrap();
    assert_eq!(config.grid_size(), 10);
    assert_eq!(config.font_size(), 20);
    assert_eq!(config.min_widht(), 30);
    assert_eq!(config.min_height(), 40);
    assert_eq!(config.theta(), Slant { run: 1, rise: 2 });
    assert_eq!(config.distance(), 10);
}

#[test]
fn zero_grid_size_is_rejected() {
    let r = ConfigBuilder::new().grid_size(0).build();
    assert_eq!(r.err(), Some(ConfigurationError::GridSize));
}

#[test]
fn zero_font_size_is_rejected() {
    let r = ConfigBuilder::new().font_size(0).build();
    assert_eq!(r.err(), Some(ConfigurationError::FontSize));
}

#[test]
fn zero_minimum_width_is_rejected() {
    let r = ConfigBuilder::new().min_width(0).build();
    assert_eq!(r.err(), Some(ConfigurationError::MinWidth));
}

#[test]
fn zero_minimum_height_is_rejected() {
    let r = ConfigBuilder::new().min_height(0).build();
    assert_eq!(r.err(), Some(ConfigurationError::MinHeight));
}

#[test]
fn degenerate_slants_are_rejected() {
    for slant in [
        Slant { run: 0, rise: 1 },
        Slant { run: 1, rise: 0 },
        Slant { run: 0, rise: 0 },
        Slant { run: 11, rise: 1 },
        Slant { run: 1, rise: 7 },
    ] {
        let r = ConfigBuilder::new().theta(slant).build();
        assert_eq!(r.err(), Some(ConfigurationError::Theta), "{:?}", slant);
    }
}

#[test]
fn slants_at_the_ends_of_the_band_are_accepted() {
    for slant in [Slant { run: 10, rise: 1 }, Slant { run: 1, rise: 6 }, Slant { run: 1, rise: 1 }] {
        assert!(ConfigBuilder::new().theta(slant).build().is_ok(), "{:?}", slant);
        assert!(slant.is_valid());
    }
}

#[test]
fn the_first_setting_out_of_range_is_reported() {
    let r = ConfigBuilder::new().grid_size(0).font_size(0).min_width(0).build();
    assert_eq!(r.err(), Some(ConfigurationError::GridSize));
    let r = ConfigBuilder::new().min_height(0).theta(Slant { run: 0, rise: 0 }).build();
    assert_eq!(r.err(), Some(ConfigurationError::MinHeight));
}

#[test]
fn slant_offset_rounds_down_and_padding_up() {
    let slant = Slant { run: 1, rise: 3 };
    assert_eq!(slant.checked_offset(40), Some(13));
    assert_eq!(slant.checked_padding(40), Some(27));
    assert_eq!(slant.checked_offset(0), Some(0));
    assert_eq!(slant.checked_padding(0), Some(0));
    assert_eq!(Slant { run: 1, rise: 2 }.checked_padding(40), Some(40));
}

#[test]
fn slant_offset_that_does_not_fit_is_none() {
    let slant = Slant { run: 10, rise: 1 };
    assert_eq!(slant.checked_offset(usize::MAX), None);
    assert_eq!(slant.checked_padding(usize::MAX), None);
    assert_eq!(slant.checked_offset(usize::MAX / 10), Some(usize::MAX / 10 * 10));
}

#[test]
fn short_process_block_takes_the_minimum_size() {
    let config = defaults();
    let block = build(&config, BlockKind::Process, "i = 0");
    assert_eq!(block.height(), 40);
    assert_eq!(block.width(), 200);
    assert_eq!(block.pos(), (0, 0));
    assert_eq!(block.top_pos(), (100, 0));
    assert_eq!(block.bottom_pos(), (100, 40));
}

#[test]
fn content_box_is_half_a_font_per_column_and_a_font_per_line_plus_padding() {
    let config = tight();
    assert_eq!(size(&config, BlockKind::Process, "abc"), (6 * 3 + 24, 12 + 24));
    assert_eq!(size(&config, BlockKind::Process, "abcde\nab\nabc"), (6 * 5 + 24, 36 + 24));
}

#[test]
fn odd_font_size_halves_downwards() {
    let config = ConfigBuilder::new()
        .grid_size(1)
        .min_width(1)
        .min_height(1)
        .font_size(13)
        .build()
        .unwrap();
    assert_eq!(size(&config, BlockKind::Process, "abcd"), (6 * 4 + 26, 13 + 26));
}

#[test]
fn terminal_block_is_widened_by_its_height() {
    let config = tight();
    assert_eq!(size(&config, BlockKind::Terminal, "abc"), (42 + 36, 36));
}

#[test]
fn io_block_is_widened_by_the_slant_padding() {
    let config = ConfigBuilder::new()
        .grid_size(1)
        .min_width(1)
        .min_height(1)
        .theta(Slant { run: 1, rise: 3 })
        .build()
        .unwrap();
    assert_eq!(size(&config, BlockKind::IO, "abc"), (42 + 24, 36));
    assert_eq!(size(&tight(), BlockKind::IO, "abc"), (42 + 24, 36));
    let steep = ConfigBuilder::new()
        .grid_size(1)
        .min_width(1)
        .min_height(1)
        .theta(Slant { run: 1, rise: 5 })
        .build()
        .unwrap();
    assert_eq!(size(&steep, BlockKind::IO, "abc"), (42 + 15, 36));
}

#[test]
fn decision_block_is_doubled_both_ways() {
    let config = tight();
    assert_eq!(size(&config, BlockKind::Decision, "abc"), (84, 72));
}

#[test]
fn dimensions_are_rounded_up_to_the_grid() {
    let config = defaults();
    let long = "a".repeat(41);
    assert_eq!(size(&config, BlockKind::Process, &long), (280, 40));
    assert_eq!(size(&config, BlockKind::Terminal, &long), (320, 40));
    assert_eq!(size(&config, BlockKind::IO, &"a".repeat(30)), (240, 40));
    assert_eq!(size(&config, BlockKind::Decision, &"a".repeat(30)), (420, 80));
    assert_eq!(size(&config, BlockKind::Decision, "i < 0"), (200, 80));
}

#[test]
fn a_dimension_on_the_grid_stays() {
    let config = ConfigBuilder::new().font_size(20).build().unwrap();
    assert_eq!(size(&config, BlockKind::Process, "01234567890123456789"), (240, 60));
}

#[test]
fn every_block_lies_on_the_grid_and_reaches_the_minimum() {
    let config = ConfigBuilder::new().grid_size(7).min_width(50).min_height(30).build().unwrap();
    let kinds = [BlockKind::Terminal, BlockKind::IO, BlockKind::Process, BlockKind::Decision];
    let contents = ["", "a", "i = 0", "a\nbb\nccc", "a longer line of text to outgrow the minimum"];
    for kind in kinds {
        for content in contents {
            let (w, h) = size(&config, kind, content);
            assert_eq!(w % 7, 0, "{:?} {:?}", kind, content);
            assert_eq!(h % 7, 0, "{:?} {:?}", kind, content);
            assert!(w >= 50 && h >= 30, "{:?} {:?}", kind, content);
        }
    }
}

#[test]
fn decision_and_terminal_are_no_smaller_than_process() {
    let config = ConfigBuilder::new().grid_size(3).min_width(10).min_height(10).build().unwrap();
    for content in ["", "i = 0", "a\nbb\nccc", "a longer line of text"] {
        let (pw, ph) = size(&config, BlockKind::Process, content);
        let (dw, dh) = size(&config, BlockKind::Decision, content);
        let (tw, _) = size(&config, BlockKind::Terminal, content);
        assert!(dw >= pw && dh >= ph, "{:?}", content);
        assert!(tw >= pw, "{:?}", content);
    }
}

#[test]
fn wide_characters_widen_the_block() {
    let config = ConfigBuilder::new().font_size(20).build().unwrap();
    let wide = "\u{4e2d}\u{6587}\u{4e2d}\u{6587}\u{4e2d}\u{6587}\u{4e2d}\u{6587}\u{4e2d}\u{6587}";
    assert_eq!(size(&config, BlockKind::Process, wide), (240, 60));
}

#[test]
fn empty_content_gives_a_block_with_one_empty_row() {
    let config = defaults();
    let block = build(&config, BlockKind::Process, "");
    assert_eq!((block.width(), block.height()), (200, 40));
    assert_eq!(
        block.to_svg(),
        SvgShape::Group(vec![
            SvgShape::Text { cx: 100, cy: 20, content: String::new() },
            SvgShape::Rect { x: 0, y: 0, width: 200, height: 40 },
        ])
    );
    assert_eq!(size(&tight(), BlockKind::Process, ""), (24, 36));
}

#[test]
fn rows_are_centred_on_the_middle_of_the_block() {
    let config = defaults();
    let block = build(&config, BlockKind::Process, "a\nb\nc");
    assert_eq!((block.width(), block.height()), (200, 60));
    assert_eq!(
        block.to_svg(),
        SvgShape::Group(vec![
            SvgShape::Text { cx: 100, cy: 18, content: String::from("a") },
            SvgShape::Text { cx: 100, cy: 30, content: String::from("b") },
            SvgShape::Text { cx: 100, cy: 42, content: String::from("c") },
            SvgShape::Rect { x: 0, y: 0, width: 200, height: 60 },
        ])
    );
}

#[test]
fn each_kind_has_its_outline() {
    let config = defaults();
    assert_eq!(
        build(&config, BlockKind::Terminal, "start").to_svg(),
        SvgShape::Group(vec![
            SvgShape::Text { cx: 100, cy: 20, content: String::from("start") },
            SvgShape::Stadium { x: 0, y: 0, width: 200, height: 40 },
        ])
    );
    assert_eq!(
        build(&config, BlockKind::IO, "input").to_svg(),
        SvgShape::Group(vec![
            SvgShape::Text { cx: 100, cy: 20, content: String::from("input") },
            SvgShape::Parallelogram {
                x: 0,
                y: 0,
                theta: Slant { run: 332_273, rise: 1_000_000 },
                width: 200,
                height: 40,
            },
        ])
    );
    assert_eq!(
        build(&config, BlockKind::Decision, "ok?").to_svg(),
        SvgShape::Group(vec![
            SvgShape::Text { cx: 100, cy: 40, content: String::from("ok?") },
            SvgShape::Diamond { x: 0, y: 0, width: 200, height: 80 },
        ])
    );
}

#[test]
fn text_is_escaped_when_the_block_is_drawn() {
    let config = defaults();
    let block = build(&config, BlockKind::Decision, "i < 0 && \"x\"");
    assert_eq!(
        block.to_svg(),
        SvgShape::Group(vec![
            SvgShape::Text {
                cx: 100,
                cy: 40,
                content: String::from("i &lt; 0 &amp;&amp; &quot;x&quot;"),
            },
            SvgShape::Diamond { x: 0, y: 0, width: 200, height: 80 },
        ])
    );
}

#[test]
fn displacing_a_block_moves_its_rows_with_it() {
    let config = defaults();
    let mut block = build(&config, BlockKind::Process, "a\nb");
    block.displace(30, 7);
    assert_eq!(block.pos(), (30, 7));
    assert_eq!((block.width(), block.height()), (200, 60));
    assert_eq!(block.top_pos(), (130, 7));
    assert_eq!(block.bottom_pos(), (130, 67));
    assert_eq!(
        block.to_svg(),
        SvgShape::Group(vec![
            SvgShape::Text { cx: 130, cy: 31, content: String::from("a") },
            SvgShape::Text { cx: 130, cy: 43, content: String::from("b") },
            SvgShape::Rect { x: 30, y: 7, width: 200, height: 60 },
        ])
    );
}

#[test]
fn displacing_twice_adds_up() {
    let config = defaults();
    let mut block = build(&config, BlockKind::Terminal, "end");
    block.displace(5, 0);
    block.displace(0, 9);
    assert_eq!(block.pos(), (5, 9));
}

#[test]
fn a_block_too_large_for_the_machine_is_not_built() {
    let config = ConfigBuilder::new().font_size(usize::MAX / 2).build().unwrap();
    let builder = BlockBuilder::new(&config);
    for kind in [BlockKind::Terminal, BlockKind::IO, BlockKind::Process, BlockKind::Decision] {
        assert!(builder.try_build(kind, String::from("ab")).is_none());
    }
    let config = ConfigBuilder::new().font_size(usize::MAX / 5).build().unwrap();
    let builder = BlockBuilder::new(&config);
    assert!(builder.try_build(BlockKind::Process, String::from("")).is_some());
    assert!(builder.try_build(BlockKind::Decision, String::from("")).is_none());
    assert!(builder.try_build(BlockKind::Terminal, String::from("")).is_none());
}

#[test]
fn build_gives_what_try_build_gives() {
    let config = defaults();
    let builder = BlockBuilder::new(&config);
    let built = builder.build(BlockKind::IO, String::from("read n"));
    let tried = builder.try_build(BlockKind::IO, String::from("read n")).unwrap();
    assert_eq!(built.to_svg(), tried.to_svg());
}

#[test]
fn size_follows_from_columns_and_lines() {
    let config = defaults();
    let builder = BlockBuilder::new(&config);
    assert_eq!(builder.size(BlockKind::Process, 5, 1), Some((200, 40)));
    assert_eq!(builder.size(BlockKind::Process, 41, 1), Some((280, 40)));
    assert_eq!(builder.size(BlockKind::Terminal, 41, 1), Some((320, 40)));
    assert_eq!(builder.size(BlockKind::IO, 30, 1), Some((240, 40)));
    assert_eq!(builder.size(BlockKind::Decision, 30, 1), Some((420, 80)));
    assert_eq!(builder.size(BlockKind::Process, 0, 0), Some((200, 40)));
    assert_eq!(builder.size(BlockKind::Process, 1, 10), Some((200, 160)));
    let tight = tight();
    let builder = BlockBuilder::new(&tight);
    assert_eq!(builder.size(BlockKind::Process, 0, 0), Some((24, 24)));
    assert_eq!(builder.size(BlockKind::Process, 3, 2), Some((42, 48)));
    assert_eq!(builder.size(BlockKind::Terminal, 3, 2), Some((90, 48)));
    assert_eq!(builder.size(BlockKind::IO, 3, 2), Some((74, 48)));
    assert_eq!(builder.size(BlockKind::Decision, 3, 2), Some((84, 96)));
}

#[test]
fn size_is_none_where_a_dimension_does_not_fit() {
    let builder_config = defaults();
    let builder = BlockBuilder::new(&builder_config);
    assert_eq!(builder.size(BlockKind::Process, usize::MAX, 1), None);
    assert_eq!(builder.size(BlockKind::Process, 1, usize::MAX), None);
    let widest_that_fits = (usize::MAX / 20 * 20 - 24) / 6;
    assert_eq!(
        builder.size(BlockKind::Process, widest_that_fits, 1),
        Some((usize::MAX / 20 * 20, 40))
    );
    assert_eq!(builder.size(BlockKind::Process, widest_that_fits + 1, 1), None);
    assert_eq!(builder.size(BlockKind::Process, usize::MAX / 6, 1), None);
    assert_eq!(builder.size(BlockKind::Decision, usize::MAX / 12, 1), None);
}

#[test]
fn measure_gives_the_size_that_build_gives() {
    let config = defaults();
    let builder = BlockBuilder::new(&config);
    assert_eq!(builder.measure(BlockKind::Process, "i = 0"), Some((200, 40)));
    assert_eq!(builder.measure(BlockKind::Decision, &"a".repeat(30)), Some((420, 80)));
    assert_eq!(builder.measure(BlockKind::Terminal, &"a".repeat(41)), Some((320, 40)));
    assert_eq!(builder.measure(BlockKind::IO, &"a".repeat(30)), Some((240, 40)));
}

#[test]
fn measure_is_none_where_the_block_does_not_fit() {
    let config = ConfigBuilder::new().font_size(usize::MAX / 5).build().unwrap();
    let builder = BlockBuilder::new(&config);
    assert!(builder.measure(BlockKind::Process, "").is_some());
    assert_eq!(builder.measure(BlockKind::Decision, ""), None);
    assert_eq!(builder.measure(BlockKind::Terminal, ""), None);
    let config = ConfigBuilder::new().grid_size(usize::MAX).build().unwrap();
    let builder = BlockBuilder::new(&config);
    assert_eq!(builder.measure(BlockKind::Process, "ab"), Some((usize::MAX, usize::MAX)));
    let config = ConfigBuilder::new().grid_size(usize::MAX - 1).min_width(usize::MAX).build().unwrap();
    let builder = BlockBuilder::new(&config);
    assert_eq!(builder.measure(BlockKind::Process, "ab"), None);
}
