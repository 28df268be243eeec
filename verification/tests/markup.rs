use flowchart::basic_block::BasicBlock;
use flowchart::block::{BlockBuilder, BlockKind};
use flowchart::config::{ConfigBuilder, Slant};
use flowchart::svg::{write_defs, write_shape, write_shapes, write_style, Svg, SvgShape};

fn markup(shape: &SvgShape, indent: usize) -> String {
    assert!(shape.is_renderable(indent));
    let mut out = String::new();
    write_shape(&mut out, indent, shape);
    out
}

const STYLE: &str = "  <style>
    .grid {
      stroke: yellow;
      stroke-width: 1;
    }
    line {
      stroke: black;
      stroke-width: 1;
    }
    polygon {
      fill: none;
      stroke: black;
      stroke-width: 1;
    }
    polyline {
      fill: none;
      marker-end: url(#arrow);
      stroke: black;
      stroke-width: 1;
    }
    rect {
      fill: none;
      stroke: black;
      stroke-width: 1;
    }
    text {
      dominant-baseline: middle;
      font-family: monospace;
      font-size: 12px;
      font-size-adjust: 0.5;
      text-anchor: middle;
    }
    tspan {
      alignment-baseline: central;
    }
  </style>
";

const DEFS: &str = "  <defs>
    <marker id=\"arrow\" viewBox=\"0 0 10 10\" refX=\"10\" refY=\"5\" markerWidth=\"6\" markerHeight=\"6\" orient=\"auto-start-reverse\">
      <path d=\"M 0 0 L 10 5 L 0 10 z\" />
    </marker>
  </defs>
";

const HEAD: &str = "<?xml version=\"1.0\" encoding=\"UTF-8\" standalone=\"no\"?>
<svg xmlns=\"http://www.w3.org/2000/svg\" xmlns:xlink=\"http://www.w3.org/1999/xlink\">
";

#[test]
fn rect_markup() {
    let shape = SvgShape::Rect { x: 1, y: 2, width: 30, height: 40 };
    assert_eq!(markup(&shape, 0), "<rect x=\"1\" y=\"2\" width=\"30\" height=\"40\" />\n");
    assert_eq!(markup(&shape, 2), "    <rect x=\"1\" y=\"2\" width=\"30\" height=\"40\" />\n");
}

#[test]
fn stadium_markup_has_half_the_height_as_radius() {
    let shape = SvgShape::Stadium { x: 1, y: 2, width: 30, height: 41 };
    assert_eq!(
        markup(&shape, 1),
        "  <rect rx=\"20\" x=\"1\" y=\"2\" width=\"30\" height=\"41\" />\n"
    );
}

#[test]
fn diamond_markup_joins_the_middles_of_the_edges() {
    let shape = SvgShape::Diamond { x: 10, y: 20, width: 200, height: 80 };
    assert_eq!(
        markup(&shape, 1),
        "  <polygon points=\"10,60 110,100 210,60 110,20\" />\n"
    );
}

#[test]
fn parallelogram_markup_slants_both_sides_by_the_offset() {
    let shape = SvgShape::Parallelogram {
        x: 10,
        y: 20,
        theta: Slant { run: 1, rise: 2 },
        width: 200,
        height: 40,
    };
    assert_eq!(
        markup(&shape, 1),
        "  <polygon points=\"10,60 190,60 210,20 30,20\" />\n"
    );
    let shape = SvgShape::Parallelogram {
        x: 0,
        y: 0,
        theta: Slant { run: 332_273, rise: 1_000_000 },
        width: 200,
        height: 60,
    };
    assert_eq!(markup(&shape, 0), "<polygon points=\"0,60 181,60 200,0 19,0\" />\n");
}

#[test]
fn line_markup() {
    assert_eq!(
        markup(&SvgShape::HLine { x: 1, y: 2, width: 30 }, 1),
        "  <line x1=\"1\" y1=\"2\" x2=\"31\" y2=\"2\" />\n"
    );
    assert_eq!(
        markup(&SvgShape::VLine { x: 1, y: 2, height: 30 }, 1),
        "  <line x1=\"1\" y1=\"2\" x2=\"1\" y2=\"32\" />\n"
    );
}

#[test]
fn arrow_markup_refers_to_the_marker() {
    assert_eq!(
        markup(&SvgShape::DownArrow { x: 120, y: 60, height: 20 }, 2),
        "    <line x1=\"120\" y1=\"60\" x2=\"120\" y2=\"80\" marker-end=\"url(#arrow)\"/>\n"
    );
}

#[test]
fn circle_markup() {
    assert_eq!(
        markup(&SvgShape::Circle { cx: 5, cy: 6, r: 7 }, 1),
        "  <circle cx=\"5\" cy=\"6\" r=\"7\" />\n"
    );
}

#[test]
fn text_markup_holds_the_content_as_it_is() {
    let shape = SvgShape::Text { cx: 100, cy: 20, content: String::from("i &lt; 0") };
    assert_eq!(markup(&shape, 1), "  <text x=\"100\" y=\"20\">i &lt; 0</text>\n");
}

#[test]
fn polyline_markup_separates_points_by_spaces() {
    assert_eq!(markup(&SvgShape::Polyline(vec![]), 1), "  <polyline points=\"\" />\n");
    assert_eq!(
        markup(&SvgShape::Polyline(vec![(1, 2)]), 1),
        "  <polyline points=\"1,2\" />\n"
    );
    assert_eq!(
        markup(&SvgShape::Polyline(vec![(1, 2), (30, 40), (5, 6)]), 1),
        "  <polyline points=\"1,2 30,40 5,6\" />\n"
    );
}

#[test]
fn grid_markup_draws_one_line_more_than_cells_each_way() {
    let shape = SvgShape::Grid { size: 20, x_count: 2, y_count: 1 };
    assert_eq!(
        markup(&shape, 1),
        "  <g>
    <line class=\"grid\" x1=\"0\" y1=\"0\" x2=\"0\" y2=\"20\" />
    <line class=\"grid\" x1=\"20\" y1=\"0\" x2=\"20\" y2=\"20\" />
    <line class=\"grid\" x1=\"40\" y1=\"0\" x2=\"40\" y2=\"20\" />
    <line class=\"grid\" x1=\"0\" y1=\"0\" x2=\"40\" y2=\"0\" />
    <line class=\"grid\" x1=\"0\" y1=\"20\" x2=\"40\" y2=\"20\" />
  </g>
"
    );
}

#[test]
fn grid_without_cells_is_one_point() {
    let shape = SvgShape::Grid { size: 20, x_count: 0, y_count: 0 };
    assert_eq!(
        markup(&shape, 0),
        "<g>
  <line class=\"grid\" x1=\"0\" y1=\"0\" x2=\"0\" y2=\"0\" />
  <line class=\"grid\" x1=\"0\" y1=\"0\" x2=\"0\" y2=\"0\" />
</g>
"
    );
}

#[test]
fn group_markup_nests_its_children_in_order() {
    let shape = SvgShape::Group(vec![
        SvgShape::Circle { cx: 1, cy: 2, r: 3 },
        SvgShape::Group(vec![SvgShape::Rect { x: 1, y: 2, width: 3, height: 4 }]),
        SvgShape::Group(vec![]),
    ]);
    assert_eq!(
        markup(&shape, 1),
        "  <g>
    <circle cx=\"1\" cy=\"2\" r=\"3\" />
    <g>
      <rect x=\"1\" y=\"2\" width=\"3\" height=\"4\" />
    </g>
    <g>
    </g>
  </g>
"
    );
}

#[test]
fn markup_is_appended_to_what_is_there() {
    let mut out = String::from("<!-- -->\n");
    write_shape(&mut out, 0, &SvgShape::Circle { cx: 1, cy: 2, r: 3 });
    assert_eq!(out, "<!-- -->\n<circle cx=\"1\" cy=\"2\" r=\"3\" />\n");
}

#[test]
fn shapes_whose_coordinates_overflow_are_not_renderable() {
    assert!(!SvgShape::HLine { x: usize::MAX, y: 0, width: 1 }.is_renderable(0));
    assert!(!SvgShape::VLine { x: 0, y: usize::MAX, height: 1 }.is_renderable(0));
    assert!(!SvgShape::DownArrow { x: 0, y: usize::MAX, height: 1 }.is_renderable(0));
    assert!(!SvgShape::Diamond { x: usize::MAX, y: 0, width: 1, height: 1 }.is_renderable(0));
    assert!(!SvgShape::Diamond { x: 0, y: usize::MAX, width: 1, height: 1 }.is_renderable(0));
    assert!(!SvgShape::Grid { size: usize::MAX, x_count: 2, y_count: 1 }.is_renderable(0));
    assert!(!SvgShape::Grid { size: usize::MAX, x_count: 1, y_count: 2 }.is_renderable(0));
    assert!(!SvgShape::Grid { size: 1, x_count: 1, y_count: 1 }.is_renderable(usize::MAX));
    assert!(!SvgShape::Group(vec![]).is_renderable(usize::MAX));
    assert!(SvgShape::HLine { x: usize::MAX - 1, y: 0, width: 1 }.is_renderable(0));
    assert!(SvgShape::Rect { x: usize::MAX, y: usize::MAX, width: 1, height: 1 }
        .is_renderable(usize::MAX));
}

#[test]
fn a_group_is_renderable_if_all_its_children_are() {
    let good = SvgShape::HLine { x: 0, y: 0, width: 1 };
    let bad = SvgShape::HLine { x: usize::MAX, y: 0, width: 1 };
    assert!(SvgShape::Group(vec![good]).is_renderable(0));
    let good = SvgShape::HLine { x: 0, y: 0, width: 1 };
    assert!(!SvgShape::Group(vec![good, SvgShape::Group(vec![bad])]).is_renderable(0));
}

#[test]
fn a_parallelogram_whose_slant_passes_its_right_edge_is_not_renderable() {
    let flat = Slant { run: 10, rise: 1 };
    assert!(!SvgShape::Parallelogram { x: 0, y: 0, theta: flat, width: 200, height: 40 }
        .is_renderable(0));
    assert!(SvgShape::Parallelogram { x: 200, y: 0, theta: flat, width: 200, height: 40 }
        .is_renderable(0));
    assert!(SvgShape::Parallelogram { x: 0, y: 0, theta: flat, width: 400, height: 40 }
        .is_renderable(0));
    let broken = Slant { run: 1, rise: 0 };
    assert!(!SvgShape::Parallelogram { x: 0, y: 0, theta: broken, width: 200, height: 40 }
        .is_renderable(0));
}

#[test]
fn style_markup_lists_rules_by_selector_and_declarations_by_property() {
    let mut out = String::new();
    let style = vec![
        (
            String::from("a"),
            vec![(String::from("p"), String::from("1")), (String::from("q"), String::from("2"))],
        ),
        (String::from("b"), vec![]),
    ];
    write_style(&mut out, &style);
    assert_eq!(
        out,
        "  <style>\n    a {\n      p: 1;\n      q: 2;\n    }\n    b {\n    }\n  </style>\n"
    );
}

#[test]
fn defs_markup_holds_the_arrow_marker() {
    let mut out = String::new();
    write_defs(&mut out);
    assert_eq!(out, DEFS);
}

#[test]
fn shapes_are_written_one_level_deep() {
    let mut out = String::new();
    write_shapes(
        &mut out,
        &vec![
            SvgShape::Circle { cx: 1, cy: 2, r: 3 },
            SvgShape::Group(vec![SvgShape::Circle { cx: 4, cy: 5, r: 6 }]),
        ],
    );
    assert_eq!(
        out,
        "  <circle cx=\"1\" cy=\"2\" r=\"3\" />
  <g>
    <circle cx=\"4\" cy=\"5\" r=\"6\" />
  </g>
"
    );
}

#[test]
fn an_empty_document_is_head_style_and_definitions() {
    let config = ConfigBuilder::new().build().unwrap();
    let svg = Svg::new(&config);
    assert_eq!(svg.render(), Some(format!("{}{}{}</svg>\n", HEAD, STYLE, DEFS)));
}

#[test]
fn the_font_size_sets_the_text_size_of_the_style() {
    let config = ConfigBuilder::new().font_size(20).build().unwrap();
    let rendered = Svg::new(&config).render().unwrap();
    assert!(rendered.contains("      font-size: 20px;\n"));
    assert_eq!(rendered, format!("{}{}{}</svg>\n", HEAD, STYLE.replace("12px", "20px"), DEFS));
}

#[test]
fn a_document_holds_its_shapes_in_the_order_pushed() {
    let config = ConfigBuilder::new().build().unwrap();
    let mut svg = Svg::new(&config);
    svg.push_shape(SvgShape::Rect { x: 1, y: 2, width: 3, height: 4 });
    svg.push_shape(SvgShape::Group(vec![SvgShape::Circle { cx: 5, cy: 6, r: 7 }]));
    assert!(svg.is_renderable());
    let body = "  <rect x=\"1\" y=\"2\" width=\"3\" height=\"4\" />
  <g>
    <circle cx=\"5\" cy=\"6\" r=\"7\" />
  </g>
";
    assert_eq!(svg.render(), Some(format!("{}{}{}{}</svg>\n", HEAD, STYLE, DEFS, body)));
    let mut out = String::from("x");
    svg.fmt(&mut out);
    assert_eq!(out, format!("x{}{}{}{}</svg>\n", HEAD, STYLE, DEFS, body));
}

#[test]
fn a_document_with_a_shape_that_cannot_be_written_is_not_rendered() {
    let config = ConfigBuilder::new().build().unwrap();
    let mut svg = Svg::new(&config);
    svg.push_shape(SvgShape::Rect { x: 1, y: 2, width: 3, height: 4 });
    svg.push_shape(SvgShape::HLine { x: usize::MAX, y: 0, width: 1 });
    assert!(!svg.is_renderable());
    assert_eq!(svg.render(), None);
}

#[test]
fn a_drawn_chain_is_rendered_blocks_first_and_arrows_last() {
    let config = ConfigBuilder::new().build().unwrap();
    let builder = BlockBuilder::new(&config);
    let mut chain = BasicBlock::new(&config, &builder, BlockKind::Terminal, String::from("start"));
    chain.push(BlockKind::Decision, String::from("i < 0"));
    chain.displace(20, 20);
    let mut svg = Svg::new(&config);
    svg.push_shape(chain.to_svg());
    let body = "  <g>
    <g>
      <text x=\"120\" y=\"40\">start</text>
      <rect rx=\"20\" x=\"20\" y=\"20\" width=\"200\" height=\"40\" />
    </g>
    <g>
      <text x=\"120\" y=\"120\">i &lt; 0</text>
      <polygon points=\"20,120 120,160 220,120 120,80\" />
    </g>
    <line x1=\"120\" y1=\"60\" x2=\"120\" y2=\"80\" marker-end=\"url(#arrow)\"/>
  </g>
";
    assert_eq!(svg.render(), Some(format!("{}{}{}{}</svg>\n", HEAD, STYLE, DEFS, body)));
}
