//! The shape tree and its serialization to SVG markup.

use crate::config::{Config, Slant};
use crate::text::{decimal, push_decimal};
use vstd::prelude::*;
use vstd::string::*;

verus! {

/// A tree of primitive shapes. Coordinates are absolute, with the origin at
/// the top left and `y` growing downwards.
#[derive(Debug, PartialEq, Eq)]
pub enum SvgShape {
    Group(Vec<SvgShape>),
    Grid { size: usize, x_count: usize, y_count: usize },
    HLine { x: usize, y: usize, width: usize },
    VLine { x: usize, y: usize, height: usize },
    Polyline(Vec<(usize, usize)>),
    Rect { x: usize, y: usize, width: usize, height: usize },
    Diamond { x: usize, y: usize, width: usize, height: usize },
    Parallelogram { x: usize, y: usize, theta: Slant, width: usize, height: usize },
    Stadium { x: usize, y: usize, width: usize, height: usize },
    DownArrow { x: usize, y: usize, height: usize },
    Circle { cx: usize, cy: usize, r: usize },
    /// `content` is markup already: reserved characters are escaped.
    Text { cx: usize, cy: usize, content: String },
}

/// A shape tree as a mathematical value.
pub enum ShapeModel {
    Group(Seq<ShapeModel>),
    Grid { size: nat, x_count: nat, y_count: nat },
    HLine { x: nat, y: nat, width: nat },
    VLine { x: nat, y: nat, height: nat },
    Polyline(Seq<(nat, nat)>),
    Rect { x: nat, y: nat, width: nat, height: nat },
    Diamond { x: nat, y: nat, width: nat, height: nat },
    Parallelogram { x: nat, y: nat, theta: Slant, width: nat, height: nat },
    Stadium { x: nat, y: nat, width: nat, height: nat },
    DownArrow { x: nat, y: nat, height: nat },
    Circle { cx: nat, cy: nat, r: nat },
    Text { cx: nat, cy: nat, content: Seq<char> },
}

/// The points of a polyline as mathematical values.
pub open spec fn points_view(points: Seq<(usize, usize)>) -> Seq<(nat, nat)> {
    Seq::new(points.len(), |i: int| (points[i].0 as nat, points[i].1 as nat))
}

impl SvgShape {
    /// The shape as a mathematical value.
    pub open spec fn model(&self) -> ShapeModel
        decreases self,
    {
        match self {
            SvgShape::Group(children) => ShapeModel::Group(
                Self::models(children@, children@.len()),
            ),
            SvgShape::Grid { size, x_count, y_count } => ShapeModel::Grid {
                size: *size as nat,
                x_count: *x_count as nat,
                y_count: *y_count as nat,
            },
            SvgShape::HLine { x, y, width } => ShapeModel::HLine {
                x: *x as nat,
                y: *y as nat,
                width: *width as nat,
            },
            SvgShape::VLine { x, y, height } => ShapeModel::VLine {
                x: *x as nat,
                y: *y as nat,
                height: *height as nat,
            },
            SvgShape::Polyline(points) => ShapeModel::Polyline(points_view(points@)),
            SvgShape::Rect { x, y, width, height } => ShapeModel::Rect {
                x: *x as nat,
                y: *y as nat,
                width: *width as nat,
                height: *height as nat,
            },
            SvgShape::Diamond { x, y, width, height } => ShapeModel::Diamond {
                x: *x as nat,
                y: *y as nat,
                width: *width as nat,
                height: *height as nat,
            },
            SvgShape::Parallelogram { x, y, theta, width, height } => ShapeModel::Parallelogram {
                x: *x as nat,
                y: *y as nat,
                theta: *theta,
                width: *width as nat,
                height: *height as nat,
            },
            SvgShape::Stadium { x, y, width, height } => ShapeModel::Stadium {
                x: *x as nat,
                y: *y as nat,
                width: *width as nat,
                height: *height as nat,
            },
            SvgShape::DownArrow { x, y, height } => ShapeModel::DownArrow {
                x: *x as nat,
                y: *y as nat,
                height: *height as nat,
            },
            SvgShape::Circle { cx, cy, r } => ShapeModel::Circle {
                cx: *cx as nat,
                cy: *cy as nat,
                r: *r as nat,
            },
            SvgShape::Text { cx, cy, content } => ShapeModel::Text {
                cx: *cx as nat,
                cy: *cy as nat,
                content: content@,
            },
        }
    }

    /// The models of the first `n` of `children`, in order.
    pub open spec fn models(children: Seq<SvgShape>, n: nat) -> Seq<ShapeModel>
        decreases children, n,
    {
        if n == 0 || n > children.len() {
            Seq::empty()
        } else {
            Self::models(children, (n - 1) as nat).push(children[n - 1].model())
        }
    }

    /// `models` keeps length and order: its `k`-th element is the model of
    /// the `k`-th child.
    pub proof fn lemma_models(children: Seq<SvgShape>, n: nat)
        requires
            n <= children.len(),
        ensures
            Self::models(children, n).len() == n,
            forall|k: int|
                0 <= k < n ==> (#[trigger] Self::models(children, n)[k]) == children[k].model(),
        decreases n,
    {
        if n > 0 {
            Self::lemma_models(children, (n - 1) as nat);
        }
    }
}

impl View for SvgShape {
    type V = ShapeModel;

    open spec fn view(&self) -> ShapeModel {
        self.model()
    }
}

/// `n` levels of indentation, two spaces each.
pub open spec fn indentation(n: nat) -> Seq<char>
    decreases n,
{
    if n == 0 {
        Seq::empty()
    } else {
        indentation((n - 1) as nat) + "  "@
    }
}

/// An attribute with a number as its value, and the space before it.
pub open spec fn attr(name: Seq<char>, value: nat) -> Seq<char> {
    " "@ + name + "=\""@ + decimal(value) + "\""@
}

/// The four attributes of a line from `(x1, y1)` to `(x2, y2)`.
pub open spec fn segment(x1: nat, y1: nat, x2: nat, y2: nat) -> Seq<char> {
    attr("x1"@, x1) + attr("y1"@, y1) + attr("x2"@, x2) + attr("y2"@, y2)
}

/// A plain line element.
pub open spec fn line_markup(indent: nat, x1: nat, y1: nat, x2: nat, y2: nat) -> Seq<char> {
    indentation(indent) + "<line"@ + segment(x1, y1, x2, y2) + " />\n"@
}

/// A line of the background grid.
pub open spec fn grid_line_markup(indent: nat, x1: nat, y1: nat, x2: nat, y2: nat) -> Seq<
    char,
> {
    indentation(indent) + "<line class=\"grid\""@ + segment(x1, y1, x2, y2) + " />\n"@
}

/// A line that ends in the arrowhead marker.
pub open spec fn arrow_markup(indent: nat, x1: nat, y1: nat, x2: nat, y2: nat) -> Seq<char> {
    indentation(indent) + "<line"@ + segment(x1, y1, x2, y2)
        + " marker-end=\"url(#arrow)\"/>\n"@
}

/// A point as `x,y`.
pub open spec fn point_markup(p: (nat, nat)) -> Seq<char> {
    decimal(p.0) + ","@ + decimal(p.1)
}

/// The first `n` points, separated by single spaces.
pub open spec fn points_markup(points: Seq<(nat, nat)>, n: nat) -> Seq<char>
    decreases n,
{
    if n == 0 {
        Seq::empty()
    } else if n == 1 {
        point_markup(points[0])
    } else {
        points_markup(points, (n - 1) as nat) + " "@ + point_markup(points[n - 1])
    }
}

/// A closed outline through four points.
pub open spec fn polygon_markup(
    indent: nat,
    a: (nat, nat),
    b: (nat, nat),
    c: (nat, nat),
    d: (nat, nat),
) -> Seq<char> {
    indentation(indent) + "<polygon points=\""@ + point_markup(a) + " "@ + point_markup(b)
        + " "@ + point_markup(c) + " "@ + point_markup(d) + "\" />\n"@
}

/// The first `n` vertical lines of a grid, left to right.
pub open spec fn grid_columns(indent: nat, size: nat, height: nat, n: nat) -> Seq<char>
    decreases n,
{
    if n == 0 {
        Seq::empty()
    } else {
        let x = (n - 1) as nat * size;
        grid_columns(indent, size, height, (n - 1) as nat) + grid_line_markup(
            indent,
            x,
            0,
            x,
            height,
        )
    }
}

/// The first `n` horizontal lines of a grid, top to bottom.
pub open spec fn grid_rows(indent: nat, size: nat, width: nat, n: nat) -> Seq<char>
    decreases n,
{
    if n == 0 {
        Seq::empty()
    } else {
        let y = (n - 1) as nat * size;
        grid_rows(indent, size, width, (n - 1) as nat) + grid_line_markup(indent, 0, y, width, y)
    }
}

impl ShapeModel {
    /// The markup of the shape at the given depth of indentation.
    pub open spec fn markup(self, indent: nat) -> Seq<char>
        decreases self, 0nat,
    {
        match self {
            ShapeModel::Group(children) => indentation(indent) + "<g>\n"@
                + Self::children_markup(children, indent + 1, children.len()) + indentation(
                indent,
            ) + "</g>\n"@,
            ShapeModel::Grid { size, x_count, y_count } => indentation(indent) + "<g>\n"@
                + grid_columns(indent + 1, size, size * y_count, x_count + 1) + grid_rows(
                indent + 1,
                size,
                size * x_count,
                y_count + 1,
            ) + indentation(indent) + "</g>\n"@,
            ShapeModel::HLine { x, y, width } => line_markup(indent, x, y, x + width, y),
            ShapeModel::VLine { x, y, height } => line_markup(indent, x, y, x, y + height),
            ShapeModel::Polyline(points) => indentation(indent) + "<polyline points=\""@
                + points_markup(points, points.len()) + "\" />\n"@,
            ShapeModel::Rect { x, y, width, height } => indentation(indent) + "<rect"@ + attr(
                "x"@,
                x,
            ) + attr("y"@, y) + attr("width"@, width) + attr("height"@, height) + " />\n"@,
            ShapeModel::Diamond { x, y, width, height } => polygon_markup(
                indent,
                (x, y + height / 2),
                (x + width / 2, y + height),
                (x + width, y + height / 2),
                (x + width / 2, y),
            ),
            ShapeModel::Parallelogram { x, y, theta, width, height } => {
                let d = theta.offset(height as int);
                polygon_markup(
                    indent,
                    (x, y + height),
                    ((x + width - d) as nat, y + height),
                    (x + width, y),
                    ((x + d) as nat, y),
                )
            },
            ShapeModel::Stadium { x, y, width, height } => indentation(indent) + "<rect"@ + attr(
                "rx"@,
                height / 2,
            ) + attr("x"@, x) + attr("y"@, y) + attr("width"@, width) + attr("height"@, height)
                + " />\n"@,
            ShapeModel::DownArrow { x, y, height } => arrow_markup(indent, x, y, x, y + height),
            ShapeModel::Circle { cx, cy, r } => indentation(indent) + "<circle"@ + attr(
                "cx"@,
                cx,
            ) + attr("cy"@, cy) + attr("r"@, r) + " />\n"@,
            ShapeModel::Text { cx, cy, content } => indentation(indent) + "<text"@ + attr(
                "x"@,
                cx,
            ) + attr("y"@, cy) + ">"@ + content + "</text>\n"@,
        }
    }

    /// The markup of the first `n` of `children`, in order.
    pub open spec fn children_markup(children: Seq<ShapeModel>, indent: nat, n: nat) -> Seq<char>
        decreases children, n,
    {
        if n == 0 || n > children.len() {
            Seq::empty()
        } else {
            Self::children_markup(children, indent, (n - 1) as nat) + children[n - 1].markup(
                indent,
            )
        }
    }

    /// Every coordinate that the markup of the shape at this depth holds fits
    /// a machine word, and a parallelogram's slant offset does not reach past
    /// its right edge.
    pub open spec fn renderable(self, indent: nat) -> bool
        decreases self,
    {
        match self {
            ShapeModel::Group(children) => indent < usize::MAX && forall|i: int|
                0 <= i < children.len() ==> (#[trigger] children[i]).renderable(indent + 1),
            ShapeModel::Grid { size, x_count, y_count } => indent < usize::MAX && size * x_count
                <= usize::MAX && size * y_count <= usize::MAX,
            ShapeModel::HLine { x, y, width } => x + width <= usize::MAX,
            ShapeModel::VLine { x, y, height } => y + height <= usize::MAX,
            ShapeModel::Polyline(points) => true,
            ShapeModel::Rect { x, y, width, height } => true,
            ShapeModel::Diamond { x, y, width, height } => x + width <= usize::MAX && y + height
                <= usize::MAX,
            ShapeModel::Parallelogram { x, y, theta, width, height } => {
                &&& theta.rise > 0
                &&& x + width <= usize::MAX
                &&& y + height <= usize::MAX
                &&& theta.offset(height as int) <= x + width
                &&& x + theta.offset(height as int) <= usize::MAX
            },
            ShapeModel::Stadium { x, y, width, height } => true,
            ShapeModel::DownArrow { x, y, height } => y + height <= usize::MAX,
            ShapeModel::Circle { cx, cy, r } => true,
            ShapeModel::Text { cx, cy, content } => true,
        }
    }

    /// The shape with every coordinate moved by `(dx, dy)`. A grid has no
    /// position of its own and stays as it is.
    pub open spec fn translated(self, dx: nat, dy: nat) -> ShapeModel
        decreases self, 0nat,
    {
        match self {
            ShapeModel::Group(children) => ShapeModel::Group(
                Self::translated_first(children, dx, dy, children.len()),
            ),
            ShapeModel::Grid { size, x_count, y_count } => self,
            ShapeModel::HLine { x, y, width } => ShapeModel::HLine { x: x + dx, y: y + dy, width },
            ShapeModel::VLine { x, y, height } => ShapeModel::VLine {
                x: x + dx,
                y: y + dy,
                height,
            },
            ShapeModel::Polyline(points) => ShapeModel::Polyline(
                Seq::new(points.len(), |i: int| (points[i].0 + dx, points[i].1 + dy)),
            ),
            ShapeModel::Rect { x, y, width, height } => ShapeModel::Rect {
                x: x + dx,
                y: y + dy,
                width,
                height,
            },
            ShapeModel::Diamond { x, y, width, height } => ShapeModel::Diamond {
                x: x + dx,
                y: y + dy,
                width,
                height,
            },
            ShapeModel::Parallelogram { x, y, theta, width, height } => ShapeModel::Parallelogram {
                x: x + dx,
                y: y + dy,
                theta,
                width,
                height,
            },
            ShapeModel::Stadium { x, y, width, height } => ShapeModel::Stadium {
                x: x + dx,
                y: y + dy,
                width,
                height,
            },
            ShapeModel::DownArrow { x, y, height } => ShapeModel::DownArrow {
                x: x + dx,
                y: y + dy,
                height,
            },
            ShapeModel::Circle { cx, cy, r } => ShapeModel::Circle { cx: cx + dx, cy: cy + dy, r },
            ShapeModel::Text { cx, cy, content } => ShapeModel::Text {
                cx: cx + dx,
                cy: cy + dy,
                content,
            },
        }
    }

    /// The first `n` of `children`, each moved by `(dx, dy)`.
    pub open spec fn translated_first(children: Seq<ShapeModel>, dx: nat, dy: nat, n: nat) -> Seq<
        ShapeModel,
    >
        decreases children, n,
    {
        if n == 0 || n > children.len() {
            Seq::empty()
        } else {
            Self::translated_first(children, dx, dy, (n - 1) as nat).push(
                children[n - 1].translated(dx, dy),
            )
        }
    }

    /// `translated_first` keeps length and order.
    pub proof fn lemma_translated_first(children: Seq<ShapeModel>, dx: nat, dy: nat, n: nat)
        requires
            n <= children.len(),
        ensures
            Self::translated_first(children, dx, dy, n).len() == n,
            forall|k: int|
                0 <= k < n ==> (#[trigger] Self::translated_first(children, dx, dy, n)[k])
                    == children[k].translated(dx, dy),
        decreases n,
    {
        if n > 0 {
            Self::lemma_translated_first(children, dx, dy, (n - 1) as nat);
        }
    }
}

fn write_indent(out: &mut String, indent: usize)
    ensures
        final(out)@ == old(out)@ + indentation(indent as nat),
{
    let ghost start = out@;
    let mut i: usize = 0;
    assert(out@ =~= start + indentation(0));
    while i < indent
        invariant
            i <= indent,
            out@ == start + indentation(i as nat),
        decreases indent - i,
    {
        out.append("  ");
        i += 1;
        assert(out@ =~= start + indentation(i as nat));
    }
}

fn write_attr(out: &mut String, name: &str, value: usize)
    ensures
        final(out)@ == old(out)@ + attr(name@, value as nat),
{
    out.append(" ");
    out.append(name);
    out.append("=\"");
    push_decimal(out, value);
    out.append("\"");
    assert(out@ =~= old(out)@ + attr(name@, value as nat));
}

fn write_segment(out: &mut String, x1: usize, y1: usize, x2: usize, y2: usize)
    ensures
        final(out)@ == old(out)@ + segment(x1 as nat, y1 as nat, x2 as nat, y2 as nat),
{
    write_attr(out, "x1", x1);
    write_attr(out, "y1", y1);
    write_attr(out, "x2", x2);
    write_attr(out, "y2", y2);
    assert(out@ =~= old(out)@ + segment(x1 as nat, y1 as nat, x2 as nat, y2 as nat));
}

fn write_line(out: &mut String, indent: usize, x1: usize, y1: usize, x2: usize, y2: usize)
    ensures
        final(out)@ == old(out)@ + line_markup(
            indent as nat,
            x1 as nat,
            y1 as nat,
            x2 as nat,
            y2 as nat,
        ),
{
    write_indent(out, indent);
    out.append("<line");
    write_segment(out, x1, y1, x2, y2);
    out.append(" />\n");
    assert(out@ =~= old(out)@ + line_markup(
        indent as nat,
        x1 as nat,
        y1 as nat,
        x2 as nat,
        y2 as nat,
    ));
}

fn write_grid_line(out: &mut String, indent: usize, x1: usize, y1: usize, x2: usize, y2: usize)
    ensures
        final(out)@ == old(out)@ + grid_line_markup(
            indent as nat,
            x1 as nat,
            y1 as nat,
            x2 as nat,
            y2 as nat,
        ),
{
    write_indent(out, indent);
    out.append("<line class=\"grid\"");
    write_segment(out, x1, y1, x2, y2);
    out.append(" />\n");
    assert(out@ =~= old(out)@ + grid_line_markup(
        indent as nat,
        x1 as nat,
        y1 as nat,
        x2 as nat,
        y2 as nat,
    ));
}

fn write_arrow(out: &mut String, indent: usize, x1: usize, y1: usize, x2: usize, y2: usize)
    ensures
        final(out)@ == old(out)@ + arrow_markup(
            indent as nat,
            x1 as nat,
            y1 as nat,
            x2 as nat,
            y2 as nat,
        ),
{
    write_indent(out, indent);
    out.append("<line");
    write_segment(out, x1, y1, x2, y2);
    out.append(" marker-end=\"url(#arrow)\"/>\n");
    assert(out@ =~= old(out)@ + arrow_markup(
        indent as nat,
        x1 as nat,
        y1 as nat,
        x2 as nat,
        y2 as nat,
    ));
}

fn write_point(out: &mut String, x: usize, y: usize)
    ensures
        final(out)@ == old(out)@ + point_markup((x as nat, y as nat)),
{
    push_decimal(out, x);
    out.append(",");
    push_decimal(out, y);
    assert(out@ =~= old(out)@ + point_markup((x as nat, y as nat)));
}

fn write_polygon(
    out: &mut String,
    indent: usize,
    a: (usize, usize),
    b: (usize, usize),
    c: (usize, usize),
    d: (usize, usize),
)
    ensures
        final(out)@ == old(out)@ + polygon_markup(
            indent as nat,
            (a.0 as nat, a.1 as nat),
            (b.0 as nat, b.1 as nat),
            (c.0 as nat, c.1 as nat),
            (d.0 as nat, d.1 as nat),
        ),
{
    write_indent(out, indent);
    out.append("<polygon points=\"");
    write_point(out, a.0, a.1);
    out.append(" ");
    write_point(out, b.0, b.1);
    out.append(" ");
    write_point(out, c.0, c.1);
    out.append(" ");
    write_point(out, d.0, d.1);
    out.append("\" />\n");
    assert(out@ =~= old(out)@ + polygon_markup(
        indent as nat,
        (a.0 as nat, a.1 as nat),
        (b.0 as nat, b.1 as nat),
        (c.0 as nat, c.1 as nat),
        (d.0 as nat, d.1 as nat),
    ));
}

fn write_points(out: &mut String, points: &Vec<(usize, usize)>)
    ensures
        final(out)@ == old(out)@ + points_markup(points_view(points@), points@.len()),
{
    let ghost start = out@;
    let ghost model = points_view(points@);
    let mut i: usize = 0;
    assert(out@ =~= start + points_markup(model, 0));
    while i < points.len()
        invariant
            i <= points.len(),
            model == points_view(points@),
            out@ == start + points_markup(model, i as nat),
        decreases points.len() - i,
    {
        if i > 0 {
            out.append(" ");
        }
        let p = points[i];
        write_point(out, p.0, p.1);
        i += 1;
        assert(out@ =~= start + points_markup(model, i as nat));
    }
}

fn write_grid(out: &mut String, indent: usize, size: usize, x_count: usize, y_count: usize)
    requires
        indent < usize::MAX,
        size * x_count <= usize::MAX,
        size * y_count <= usize::MAX,
    ensures
        final(out)@ == old(out)@ + (ShapeModel::Grid {
            size: size as nat,
            x_count: x_count as nat,
            y_count: y_count as nat,
        }).markup(indent as nat),
{
    let ghost start = out@;
    let width = size * x_count;
    let height = size * y_count;
    write_indent(out, indent);
    out.append("<g>\n");
    let ghost opened = out@;
    let mut x: usize = 0;
    assert(out@ =~= opened + grid_columns((indent + 1) as nat, size as nat, height as nat, 0));
    loop
        invariant_except_break
            x <= x_count,
            out@ == opened + grid_columns((indent + 1) as nat, size as nat, height as nat, x as nat),
        invariant
            indent < usize::MAX,
            width == size * x_count,
        ensures
            out@ == opened + grid_columns(
                (indent + 1) as nat,
                size as nat,
                height as nat,
                (x_count + 1) as nat,
            ),
        decreases x_count - x,
    {
        assert(x * size <= size * x_count) by (nonlinear_arith)
            requires
                x <= x_count,
        ;
        write_grid_line(out, indent + 1, x * size, 0, x * size, height);
        assert(out@ =~= opened + grid_columns(
            (indent + 1) as nat,
            size as nat,
            height as nat,
            (x + 1) as nat,
        ));
        if x == x_count {
            break ;
        }
        x += 1;
    }
    let ghost columns = out@;
    let mut y: usize = 0;
    assert(out@ =~= columns + grid_rows((indent + 1) as nat, size as nat, width as nat, 0));
    loop
        invariant_except_break
            y <= y_count,
            out@ == columns + grid_rows((indent + 1) as nat, size as nat, width as nat, y as nat),
        invariant
            indent < usize::MAX,
            height == size * y_count,
        ensures
            out@ == columns + grid_rows(
                (indent + 1) as nat,
                size as nat,
                width as nat,
                (y_count + 1) as nat,
            ),
        decreases y_count - y,
    {
        assert(y * size <= size * y_count) by (nonlinear_arith)
            requires
                y <= y_count,
        ;
        write_grid_line(out, indent + 1, 0, y * size, width, y * size);
        assert(out@ =~= columns + grid_rows(
            (indent + 1) as nat,
            size as nat,
            width as nat,
            (y + 1) as nat,
        ));
        if y == y_count {
            break ;
        }
        y += 1;
    }
    write_indent(out, indent);
    out.append("</g>\n");
    assert(out@ =~= start + (ShapeModel::Grid {
        size: size as nat,
        x_count: x_count as nat,
        y_count: y_count as nat,
    }).markup(indent as nat));
}

fn write_polyline(out: &mut String, indent: usize, points: &Vec<(usize, usize)>)
    ensures
        final(out)@ == old(out)@ + ShapeModel::Polyline(points_view(points@)).markup(indent as nat),
{
    write_indent(out, indent);
    out.append("<polyline points=\"");
    write_points(out, points);
    out.append("\" />\n");
    assert(out@ =~= old(out)@ + ShapeModel::Polyline(points_view(points@)).markup(indent as nat));
}

fn write_rect(out: &mut String, indent: usize, x: usize, y: usize, width: usize, height: usize)
    ensures
        final(out)@ == old(out)@ + (ShapeModel::Rect {
            x: x as nat,
            y: y as nat,
            width: width as nat,
            height: height as nat,
        }).markup(indent as nat),
{
    write_indent(out, indent);
    out.append("<rect");
    write_attr(out, "x", x);
    write_attr(out, "y", y);
    write_attr(out, "width", width);
    write_attr(out, "height", height);
    out.append(" />\n");
    assert(out@ =~= old(out)@ + (ShapeModel::Rect {
        x: x as nat,
        y: y as nat,
        width: width as nat,
        height: height as nat,
    }).markup(indent as nat));
}

fn write_stadium(out: &mut String, indent: usize, x: usize, y: usize, width: usize, height: usize)
    ensures
        final(out)@ == old(out)@ + (ShapeModel::Stadium {
            x: x as nat,
            y: y as nat,
            width: width as nat,
            height: height as nat,
        }).markup(indent as nat),
{
    write_indent(out, indent);
    out.append("<rect");
    write_attr(out, "rx", height / 2);
    write_attr(out, "x", x);
    write_attr(out, "y", y);
    write_attr(out, "width", width);
    write_attr(out, "height", height);
    out.append(" />\n");
    assert(out@ =~= old(out)@ + (ShapeModel::Stadium {
        x: x as nat,
        y: y as nat,
        width: width as nat,
        height: height as nat,
    }).markup(indent as nat));
}

fn write_circle(out: &mut String, indent: usize, cx: usize, cy: usize, r: usize)
    ensures
        final(out)@ == old(out)@ + (ShapeModel::Circle {
            cx: cx as nat,
            cy: cy as nat,
            r: r as nat,
        }).markup(indent as nat),
{
    write_indent(out, indent);
    out.append("<circle");
    write_attr(out, "cx", cx);
    write_attr(out, "cy", cy);
    write_attr(out, "r", r);
    out.append(" />\n");
    assert(out@ =~= old(out)@ + (ShapeModel::Circle {
        cx: cx as nat,
        cy: cy as nat,
        r: r as nat,
    }).markup(indent as nat));
}

fn write_text(out: &mut String, indent: usize, cx: usize, cy: usize, content: &str)
    ensures
        final(out)@ == old(out)@ + (ShapeModel::Text {
            cx: cx as nat,
            cy: cy as nat,
            content: content@,
        }).markup(indent as nat),
{
    write_indent(out, indent);
    out.append("<text");
    write_attr(out, "x", cx);
    write_attr(out, "y", cy);
    out.append(">");
    out.append(content);
    out.append("</text>\n");
    assert(out@ =~= old(out)@ + (ShapeModel::Text {
        cx: cx as nat,
        cy: cy as nat,
        content: content@,
    }).markup(indent as nat));
}

/// Appends the markup of `shape`, indented by `indent` levels, to `out`.
pub fn write_shape(out: &mut String, indent: usize, shape: &SvgShape)
    requires
        shape@.renderable(indent as nat),
    ensures
        final(out)@ == old(out)@ + shape@.markup(indent as nat),
    decreases shape,
{
    match shape {
        SvgShape::Group(children) => {
            let ghost start = out@;
            let ghost models = SvgShape::models(children@, children@.len());
            proof {
                SvgShape::lemma_models(children@, children@.len());
            }
            write_indent(out, indent);
            out.append("<g>\n");
            let ghost opened = out@;
            let mut i: usize = 0;
            assert(out@ =~= opened + ShapeModel::children_markup(models, (indent + 1) as nat, 0));
            while i < children.len()
                invariant
                    i <= children.len(),
                    indent < usize::MAX,
                    *shape == SvgShape::Group(*children),
                    models.len() == children@.len(),
                    forall|k: int|
                        0 <= k < models.len() ==> (#[trigger] models[k]) == children@[k].model(),
                    forall|k: int|
                        0 <= k < models.len() ==> (#[trigger] models[k]).renderable(
                            (indent + 1) as nat,
                        ),
                    out@ == opened + ShapeModel::children_markup(
                        models,
                        (indent + 1) as nat,
                        i as nat,
                    ),
                decreases children.len() - i,
            {
                assert(models[i as int].renderable((indent + 1) as nat));
                // The child is part of the list, and the list part of the group.
                assert(decreases_to!(*shape => shape->Group_0));
                assert(decreases_to!(*children => children[i as int]));
                write_shape(out, indent + 1, &children[i]);
                i += 1;
                assert(out@ =~= opened + ShapeModel::children_markup(
                    models,
                    (indent + 1) as nat,
                    i as nat,
                ));
            }
            write_indent(out, indent);
            out.append("</g>\n");
            assert(out@ =~= start + shape@.markup(indent as nat));
        },
        SvgShape::Grid { size, x_count, y_count } => {
            write_grid(out, indent, *size, *x_count, *y_count);
        },
        SvgShape::HLine { x, y, width } => {
            write_line(out, indent, *x, *y, *x + *width, *y);
        },
        SvgShape::VLine { x, y, height } => {
            write_line(out, indent, *x, *y, *x, *y + *height);
        },
        SvgShape::Polyline(points) => {
            write_polyline(out, indent, points);
        },
        SvgShape::Rect { x, y, width, height } => {
            write_rect(out, indent, *x, *y, *width, *height);
        },
        SvgShape::Diamond { x, y, width, height } => {
            write_polygon(
                out,
                indent,
                (*x, *y + *height / 2),
                (*x + *width / 2, *y + *height),
                (*x + *width, *y + *height / 2),
                (*x + *width / 2, *y),
            );
        },
        SvgShape::Parallelogram { x, y, theta, width, height } => {
            let d = theta.checked_offset(*height).unwrap();
            write_polygon(
                out,
                indent,
                (*x, *y + *height),
                (*x + *width - d, *y + *height),
                (*x + *width, *y),
                (*x + d, *y),
            );
        },
        SvgShape::Stadium { x, y, width, height } => {
            write_stadium(out, indent, *x, *y, *width, *height);
        },
        SvgShape::DownArrow { x, y, height } => {
            write_arrow(out, indent, *x, *y, *x, *y + *height);
        },
        SvgShape::Circle { cx, cy, r } => {
            write_circle(out, indent, *cx, *cy, *r);
        },
        SvgShape::Text { cx, cy, content } => {
            write_text(out, indent, *cx, *cy, content.as_str());
        },
    }
}

impl SvgShape {
    /// Whether the shape can be written at the given depth: whether every
    /// coordinate of its markup fits a machine word.
    pub fn is_renderable(&self, indent: usize) -> (ok: bool)
        ensures
            ok == self@.renderable(indent as nat),
        decreases self,
    {
        match self {
            SvgShape::Group(children) => {
                if indent == usize::MAX {
                    return false;
                }
                let ghost models = SvgShape::models(children@, children@.len());
                proof {
                    SvgShape::lemma_models(children@, children@.len());
                }
                let mut i: usize = 0;
                while i < children.len()
                    invariant
                        i <= children.len(),
                        indent < usize::MAX,
                        *self == SvgShape::Group(*children),
                        models == SvgShape::models(children@, children@.len()),
                        models.len() == children@.len(),
                        forall|k: int|
                            0 <= k < models.len() ==> (#[trigger] models[k])
                                == children@[k].model(),
                        forall|k: int|
                            0 <= k < i ==> (#[trigger] models[k]).renderable((indent + 1) as nat),
                    decreases children.len() - i,
                {
                    // The child is part of the list, and the list part of the group.
                    assert(decreases_to!(*self => self->Group_0));
                    assert(decreases_to!(*children => children[i as int]));
                    if !children[i].is_renderable(indent + 1) {
                        assert(!models[i as int].renderable((indent + 1) as nat));
                        assert(self@->Group_0[i as int] == models[i as int]);
                        return false;
                    }
                    i += 1;
                }
                true
            },
            SvgShape::Grid { size, x_count, y_count } => {
                indent < usize::MAX && size.checked_mul(*x_count).is_some() && size.checked_mul(
                    *y_count,
                ).is_some()
            },
            SvgShape::HLine { x, y, width } => x.checked_add(*width).is_some(),
            SvgShape::VLine { x, y, height } => y.checked_add(*height).is_some(),
            SvgShape::Polyline(points) => true,
            SvgShape::Rect { x, y, width, height } => true,
            SvgShape::Diamond { x, y, width, height } => x.checked_add(*width).is_some()
                && y.checked_add(*height).is_some(),
            SvgShape::Parallelogram { x, y, theta, width, height } => {
                if theta.rise == 0 || y.checked_add(*height).is_none() {
                    return false;
                }
                match (x.checked_add(*width), theta.checked_offset(*height)) {
                    (Some(right), Some(d)) => d <= right && x.checked_add(d).is_some(),
                    _ => false,
                }
            },
            SvgShape::Stadium { x, y, width, height } => true,
            SvgShape::DownArrow { x, y, height } => y.checked_add(*height).is_some(),
            SvgShape::Circle { cx, cy, r } => true,
            SvgShape::Text { cx, cy, content } => true,
        }
    }
}

/// A style rule as mathematical values: a selector and its declarations, each
/// a property and a value.
pub type RuleModel = (Seq<char>, Seq<(Seq<char>, Seq<char>)>);

/// The declarations of a rule as mathematical values.
pub open spec fn declarations_view(declarations: Seq<(String, String)>) -> Seq<
    (Seq<char>, Seq<char>),
> {
    Seq::new(declarations.len(), |i: int| (declarations[i].0@, declarations[i].1@))
}

/// A style sheet as mathematical values.
pub open spec fn style_view(style: Seq<(String, Vec<(String, String)>)>) -> Seq<RuleModel> {
    Seq::new(style.len(), |i: int| (style[i].0@, declarations_view(style[i].1@)))
}

/// The style sheet of a new document, its rules ordered by selector and the
/// declarations of each rule by property. The font size sets the text size.
pub open spec fn default_style(font_size: nat) -> Seq<RuleModel> {
    seq![
        (".grid"@, seq![("stroke"@, "yellow"@), ("stroke-width"@, "1"@)]),
        ("line"@, seq![("stroke"@, "black"@), ("stroke-width"@, "1"@)]),
        ("polygon"@, seq![("fill"@, "none"@), ("stroke"@, "black"@), ("stroke-width"@, "1"@)]),
        (
            "polyline"@,
            seq![
                ("fill"@, "none"@),
                ("marker-end"@, "url(#arrow)"@),
                ("stroke"@, "black"@),
                ("stroke-width"@, "1"@),
            ],
        ),
        ("rect"@, seq![("fill"@, "none"@), ("stroke"@, "black"@), ("stroke-width"@, "1"@)]),
        (
            "text"@,
            seq![
                ("dominant-baseline"@, "middle"@),
                ("font-family"@, "monospace"@),
                ("font-size"@, decimal(font_size) + "px"@),
                ("font-size-adjust"@, "0.5"@),
                ("text-anchor"@, "middle"@),
            ],
        ),
        ("tspan"@, seq![("alignment-baseline"@, "central"@)]),
    ]
}

/// The first `n` declarations of a rule, one to a line.
pub open spec fn declarations_markup(declarations: Seq<(Seq<char>, Seq<char>)>, n: nat) -> Seq<
    char,
>
    decreases n,
{
    if n == 0 {
        Seq::empty()
    } else {
        declarations_markup(declarations, (n - 1) as nat) + indentation(3) + declarations[n
            - 1].0 + ": "@ + declarations[n - 1].1 + ";\n"@
    }
}

/// A rule: its selector, then its declarations in braces.
pub open spec fn rule_markup(rule: RuleModel) -> Seq<char> {
    indentation(2) + rule.0 + " {\n"@ + declarations_markup(rule.1, rule.1.len()) + indentation(2)
        + "}\n"@
}

/// The first `n` rules of a style sheet, in order.
pub open spec fn rules_markup(style: Seq<RuleModel>, n: nat) -> Seq<char>
    decreases n,
{
    if n == 0 {
        Seq::empty()
    } else {
        rules_markup(style, (n - 1) as nat) + rule_markup(style[n - 1])
    }
}

/// The style element with all rules of the sheet.
pub open spec fn style_markup(style: Seq<RuleModel>) -> Seq<char> {
    indentation(1) + "<style>\n"@ + rules_markup(style, style.len()) + indentation(1)
        + "</style>\n"@
}

/// The definitions element: the one arrowhead marker that arrows refer to.
pub open spec fn defs_markup() -> Seq<char> {
    indentation(1) + "<defs>\n"@ + indentation(2)
        + "<marker id=\"arrow\" viewBox=\"0 0 10 10\" refX=\"10\" refY=\"5\" markerWidth=\"6\" markerHeight=\"6\" orient=\"auto-start-reverse\">\n"@
        + indentation(3) + "<path d=\"M 0 0 L 10 5 L 0 10 z\" />\n"@ + indentation(2)
        + "</marker>\n"@ + indentation(1) + "</defs>\n"@
}

fn write_declarations(f: &mut String, declarations: &Vec<(String, String)>)
    ensures
        final(f)@ == old(f)@ + declarations_markup(
            declarations_view(declarations@),
            declarations@.len(),
        ),
{
    let ghost start = f@;
    let ghost model = declarations_view(declarations@);
    let mut i: usize = 0;
    assert(f@ =~= start + declarations_markup(model, 0));
    while i < declarations.len()
        invariant
            i <= declarations.len(),
            model == declarations_view(declarations@),
            f@ == start + declarations_markup(model, i as nat),
        decreases declarations.len() - i,
    {
        let ghost so_far = f@;
        write_indent(f, 3);
        f.append(declarations[i].0.as_str());
        f.append(": ");
        f.append(declarations[i].1.as_str());
        f.append(";\n");
        i += 1;
        assert(f@ =~= start + declarations_markup(model, i as nat));
    }
}

/// Appends the style element with the rules of `style` to `f`.
pub fn write_style(f: &mut String, style: &Vec<(String, Vec<(String, String)>)>)
    ensures
        final(f)@ == old(f)@ + style_markup(style_view(style@)),
{
    let ghost start = f@;
    let ghost model = style_view(style@);
    write_indent(f, 1);
    f.append("<style>\n");
    let ghost opened = f@;
    let mut i: usize = 0;
    assert(f@ =~= opened + rules_markup(model, 0));
    while i < style.len()
        invariant
            i <= style.len(),
            model == style_view(style@),
            f@ == opened + rules_markup(model, i as nat),
        decreases style.len() - i,
    {
        write_indent(f, 2);
        f.append(style[i].0.as_str());
        f.append(" {\n");
        write_declarations(f, &style[i].1);
        write_indent(f, 2);
        f.append("}\n");
        i += 1;
        assert(f@ =~= opened + rules_markup(model, i as nat));
    }
    write_indent(f, 1);
    f.append("</style>\n");
    assert(f@ =~= start + style_markup(model));
}

/// Appends the definitions element to `f`.
pub fn write_defs(f: &mut String)
    ensures
        final(f)@ == old(f)@ + defs_markup(),
{
    write_indent(f, 1);
    f.append("<defs>\n");
    write_indent(f, 2);
    f.append(
        "<marker id=\"arrow\" viewBox=\"0 0 10 10\" refX=\"10\" refY=\"5\" markerWidth=\"6\" markerHeight=\"6\" orient=\"auto-start-reverse\">\n",
    );
    write_indent(f, 3);
    f.append("<path d=\"M 0 0 L 10 5 L 0 10 z\" />\n");
    write_indent(f, 2);
    f.append("</marker>\n");
    write_indent(f, 1);
    f.append("</defs>\n");
    assert(f@ =~= old(f)@ + defs_markup());
}

/// Every one of the shapes can be written at depth 1.
pub open spec fn all_renderable(shapes: Seq<ShapeModel>) -> bool {
    forall|i: int| 0 <= i < shapes.len() ==> (#[trigger] shapes[i]).renderable(1)
}

/// Appends the markup of every shape, one level deep, to `f`.
pub fn write_shapes(f: &mut String, shapes: &Vec<SvgShape>)
    requires
        all_renderable(SvgShape::models(shapes@, shapes@.len())),
    ensures
        final(f)@ == old(f)@ + ShapeModel::children_markup(
            SvgShape::models(shapes@, shapes@.len()),
            1,
            shapes@.len(),
        ),
{
    let ghost start = f@;
    let ghost models = SvgShape::models(shapes@, shapes@.len());
    proof {
        SvgShape::lemma_models(shapes@, shapes@.len());
    }
    let mut i: usize = 0;
    assert(f@ =~= start + ShapeModel::children_markup(models, 1, 0));
    while i < shapes.len()
        invariant
            i <= shapes.len(),
            models.len() == shapes@.len(),
            forall|k: int| 0 <= k < models.len() ==> (#[trigger] models[k]) == shapes@[k].model(),
            all_renderable(models),
            f@ == start + ShapeModel::children_markup(models, 1, i as nat),
        decreases shapes.len() - i,
    {
        assert(models[i as int].renderable(1));
        write_shape(f, 1, &shapes[i]);
        i += 1;
        assert(f@ =~= start + ShapeModel::children_markup(models, 1, i as nat));
    }
}

/// A document as mathematical values.
pub struct SvgView {
    pub style: Seq<RuleModel>,
    pub shapes: Seq<ShapeModel>,
}

impl SvgView {
    /// Every shape of the document can be written.
    pub open spec fn renderable(self) -> bool {
        all_renderable(self.shapes)
    }

    /// The whole document: the prolog, the root element with its namespaces,
    /// the style sheet, the definitions, every shape in order one level deep,
    /// and the end of the root element.
    pub open spec fn markup(self) -> Seq<char> {
        "<?xml version=\"1.0\" encoding=\"UTF-8\" standalone=\"no\"?>\n"@
            + "<svg xmlns=\"http://www.w3.org/2000/svg\" xmlns:xlink=\"http://www.w3.org/1999/xlink\">\n"@
            + style_markup(self.style) + defs_markup() + ShapeModel::children_markup(
            self.shapes,
            1,
            self.shapes.len(),
        ) + "</svg>\n"@
    }
}

/// A document: a style sheet and the shapes drawn under it.
pub struct Svg {
    style: Vec<(String, Vec<(String, String)>)>,
    shapes: Vec<SvgShape>,
}

impl View for Svg {
    type V = SvgView;

    closed spec fn view(&self) -> SvgView {
        SvgView {
            style: style_view(self.style@),
            shapes: SvgShape::models(self.shapes@, self.shapes@.len()),
        }
    }
}

fn declaration(property: &str, value: &str) -> (d: (String, String))
    ensures
        d.0@ == property@,
        d.1@ == value@,
{
    (String::from_str(property), String::from_str(value))
}

fn stroke_rule(selector: &str, color: &str) -> (r: (String, Vec<(String, String)>))
    ensures
        r.0@ == selector@,
        declarations_view(r.1@) == seq![("stroke"@, color@), ("stroke-width"@, "1"@)],
{
    let mut declarations: Vec<(String, String)> = Vec::new();
    declarations.push(declaration("stroke", color));
    declarations.push(declaration("stroke-width", "1"));
    assert(declarations_view(declarations@) =~= seq![
        ("stroke"@, color@),
        ("stroke-width"@, "1"@),
    ]);
    (String::from_str(selector), declarations)
}

fn outline_rule(selector: &str) -> (r: (String, Vec<(String, String)>))
    ensures
        r.0@ == selector@,
        declarations_view(r.1@) == seq![
            ("fill"@, "none"@),
            ("stroke"@, "black"@),
            ("stroke-width"@, "1"@),
        ],
{
    let mut declarations: Vec<(String, String)> = Vec::new();
    declarations.push(declaration("fill", "none"));
    declarations.push(declaration("stroke", "black"));
    declarations.push(declaration("stroke-width", "1"));
    assert(declarations_view(declarations@) =~= seq![
        ("fill"@, "none"@),
        ("stroke"@, "black"@),
        ("stroke-width"@, "1"@),
    ]);
    (String::from_str(selector), declarations)
}

fn polyline_rule() -> (r: (String, Vec<(String, String)>))
    ensures
        r.0@ == "polyline"@,
        declarations_view(r.1@) == seq![
            ("fill"@, "none"@),
            ("marker-end"@, "url(#arrow)"@),
            ("stroke"@, "black"@),
            ("stroke-width"@, "1"@),
        ],
{
    let mut declarations: Vec<(String, String)> = Vec::new();
    declarations.push(declaration("fill", "none"));
    declarations.push(declaration("marker-end", "url(#arrow)"));
    declarations.push(declaration("stroke", "black"));
    declarations.push(declaration("stroke-width", "1"));
    assert(declarations_view(declarations@) =~= seq![
        ("fill"@, "none"@),
        ("marker-end"@, "url(#arrow)"@),
        ("stroke"@, "black"@),
        ("stroke-width"@, "1"@),
    ]);
    (String::from_str("polyline"), declarations)
}

fn text_rule(font_size: usize) -> (r: (String, Vec<(String, String)>))
    ensures
        r.0@ == "text"@,
        declarations_view(r.1@) == seq![
            ("dominant-baseline"@, "middle"@),
            ("font-family"@, "monospace"@),
            ("font-size"@, decimal(font_size as nat) + "px"@),
            ("font-size-adjust"@, "0.5"@),
            ("text-anchor"@, "middle"@),
        ],
{
    let mut size = String::new();
    push_decimal(&mut size, font_size);
    size.append("px");
    assert(size@ =~= decimal(font_size as nat) + "px"@);
    let mut declarations: Vec<(String, String)> = Vec::new();
    declarations.push(declaration("dominant-baseline", "middle"));
    declarations.push(declaration("font-family", "monospace"));
    declarations.push((String::from_str("font-size"), size));
    declarations.push(declaration("font-size-adjust", "0.5"));
    declarations.push(declaration("text-anchor", "middle"));
    assert(declarations_view(declarations@) =~= seq![
        ("dominant-baseline"@, "middle"@),
        ("font-family"@, "monospace"@),
        ("font-size"@, decimal(font_size as nat) + "px"@),
        ("font-size-adjust"@, "0.5"@),
        ("text-anchor"@, "middle"@),
    ]);
    (String::from_str("text"), declarations)
}

fn tspan_rule() -> (r: (String, Vec<(String, String)>))
    ensures
        r.0@ == "tspan"@,
        declarations_view(r.1@) == seq![("alignment-baseline"@, "central"@)],
{
    let mut declarations: Vec<(String, String)> = Vec::new();
    declarations.push(declaration("alignment-baseline", "central"));
    assert(declarations_view(declarations@) =~= seq![("alignment-baseline"@, "central"@)]);
    (String::from_str("tspan"), declarations)
}

impl Svg {
    /// An empty document under the default style sheet, its text sized by
    /// the configured font size.
    pub fn new(config: &Config) -> (svg: Self)
        ensures
            svg@.style == default_style(config@.font_size),
            svg@.shapes == Seq::<ShapeModel>::empty(),
    {
        let mut style: Vec<(String, Vec<(String, String)>)> = Vec::new();
        style.push(stroke_rule(".grid", "yellow"));
        style.push(stroke_rule("line", "black"));
        style.push(outline_rule("polygon"));
        style.push(polyline_rule());
        style.push(outline_rule("rect"));
        style.push(text_rule(config.font_size()));
        style.push(tspan_rule());
        assert(style_view(style@) =~= default_style(config@.font_size));
        Self { style, shapes: Vec::new() }
    }

    /// Adds `shape` after the shapes that the document holds.
    pub fn push_shape(&mut self, shape: SvgShape)
        ensures
            final(self)@.style == old(self)@.style,
            final(self)@.shapes == old(self)@.shapes.push(shape@),
    {
        proof {
            SvgShape::lemma_models(self.shapes@, self.shapes@.len());
        }
        self.shapes.push(shape);
        proof {
            SvgShape::lemma_models(self.shapes@, self.shapes@.len());
            assert(self@.shapes =~= old(self)@.shapes.push(shape@));
        }
    }

    /// Whether every shape of the document can be written.
    pub fn is_renderable(&self) -> (ok: bool)
        ensures
            ok == self@.renderable(),
    {
        let ghost models = SvgShape::models(self.shapes@, self.shapes@.len());
        proof {
            SvgShape::lemma_models(self.shapes@, self.shapes@.len());
        }
        let mut i: usize = 0;
        while i < self.shapes.len()
            invariant
                i <= self.shapes.len(),
                models == self@.shapes,
                models.len() == self.shapes@.len(),
                forall|k: int|
                    0 <= k < models.len() ==> (#[trigger] models[k]) == self.shapes@[k].model(),
                forall|k: int| 0 <= k < i ==> (#[trigger] models[k]).renderable(1),
            decreases self.shapes.len() - i,
        {
            if !self.shapes[i].is_renderable(1) {
                assert(!models[i as int].renderable(1));
                return false;
            }
            i += 1;
        }
        true
    }

    /// Appends the document's markup to `f`.
    pub fn fmt(&self, f: &mut String)
        requires
            self@.renderable(),
        ensures
            final(f)@ == old(f)@ + self@.markup(),
    {
        f.append("<?xml version=\"1.0\" encoding=\"UTF-8\" standalone=\"no\"?>\n");
        f.append(
            "<svg xmlns=\"http://www.w3.org/2000/svg\" xmlns:xlink=\"http://www.w3.org/1999/xlink\">\n",
        );
        write_style(f, &self.style);
        write_defs(f);
        write_shapes(f, &self.shapes);
        f.append("</svg>\n");
        proof {
            SvgShape::lemma_models(self.shapes@, self.shapes@.len());
            assert(f@ =~= old(f)@ + self@.markup());
        }
    }

    /// The document's markup, or `None` exactly when one of its shapes cannot
    /// be written.
    pub fn render(&self) -> (r: Option<String>)
        ensures
            r is Some <==> self@.renderable(),
            r matches Some(s) ==> s@ == self@.markup(),
    {
        if self.is_renderable() {
            let mut s = String::new();
            self.fmt(&mut s);
            assert(s@ =~= self@.markup());
            Some(s)
        } else {
            None
        }
    }
}

} // verus!
