//! Blocks: flowchart nodes sized to their text and snapped to the grid.

use crate::config::{Config, ConfigView, Slant};
use crate::svg::{ShapeModel, SvgShape};
use crate::text::{escape, escape_char, lines_view, split_lines, text_lines};
use unicode_width::UnicodeWidthStr;
use vstd::arithmetic::div_mod::{lemma_div_is_ordered, lemma_fundamental_div_mod_converse};
use vstd::arithmetic::mul::lemma_mul_inequality;
use vstd::prelude::*;
use vstd::string::*;

verus! {

/// The number of terminal columns that a line of text takes when every
/// character is drawn in a monospace font: what `unicode-width` computes for
/// it.
pub uninterp spec fn display_width(line: Seq<char>) -> nat;

/// `UnicodeWidthStr::width` of `unicode-width`. The crate computes the width
/// from the characters of the string alone, by table lookups and wrapping
/// sums; the contract gives that number its name and claims nothing else.
#[verifier::external_body]
fn line_width(line: &str) -> (w: usize)
    ensures
        w == display_width(line@),
{
    UnicodeWidthStr::width(line)
}

/// The greatest display width among the lines; 0 if there are none.
pub open spec fn widest(lines: Seq<Seq<char>>) -> nat
    decreases lines.len(),
{
    if lines.len() == 0 {
        0
    } else {
        let rest = widest(lines.drop_last());
        let last = display_width(lines.last());
        if last > rest {
            last
        } else {
            rest
        }
    }
}

/// Columns of the widest line of `content`, and its number of lines.
pub fn get_num_columns_num_lines(content: &str) -> (r: (usize, usize))
    ensures
        r.0 == widest(text_lines(content@)),
        r.1 == text_lines(content@).len(),
{
    let lines = split_lines(content);
    let ghost all = lines_view(lines@);
    let mut num_columns: usize = 0;
    let mut i: usize = 0;
    while i < lines.len()
        invariant
            i <= lines.len(),
            all == lines_view(lines@),
            num_columns == widest(all.take(i as int)),
        decreases lines.len() - i,
    {
        let w = line_width(lines[i].as_str());
        if w > num_columns {
            num_columns = w;
        }
        i += 1;
        assert(all.take(i as int).drop_last() =~= all.take(i - 1));
    }
    assert(all.take(lines.len() as int) =~= all);
    (num_columns, lines.len())
}

/// Each line with the height of its centre: the lines stand `font_size`
/// apart, and the middle of the stack is at `cy`.
pub open spec fn text_rows(lines: Seq<Seq<char>>, cy: nat, font_size: nat) -> Seq<
    (Seq<char>, nat),
> {
    Seq::new(
        lines.len(),
        |i: int| (lines[i], (cy + i * font_size - ((lines.len() - 1) * font_size) / 2) as nat),
    )
}

/// Text rows as mathematical values.
pub open spec fn rows_view(rows: Seq<(String, usize)>) -> Seq<(Seq<char>, nat)> {
    Seq::new(rows.len(), |i: int| (rows[i].0@, rows[i].1 as nat))
}

/// The lines of `content`, stacked `font_size` apart around the height `cy`.
/// The first line must not come to stand above 0, nor the last beyond what a
/// machine word holds.
pub fn get_texts(content: String, cy: usize, font_size: usize) -> (texts: Vec<(String, usize)>)
    requires
        ((text_lines(content@).len() - 1) * font_size) / 2 <= cy,
        cy + (text_lines(content@).len() - 1) * font_size - ((text_lines(content@).len() - 1)
            * font_size) / 2 <= usize::MAX,
    ensures
        rows_view(texts@) == text_rows(text_lines(content@), cy as nat, font_size as nat),
{
    let lines = split_lines(content.as_str());
    let ghost all = lines_view(lines@);
    let n = lines.len();
    let gaps: u128 = (n - 1) as u128;
    let font: u128 = font_size as u128;
    assert(gaps * font <= 0xffff_ffff_ffff_ffff * 0xffff_ffff_ffff_ffff) by (nonlinear_arith)
        requires
            0 <= gaps <= 0xffff_ffff_ffff_ffff,
            0 <= font <= 0xffff_ffff_ffff_ffff,
    ;
    let span: u128 = gaps * font;
    let half: u128 = span / 2;
    let mut texts: Vec<(String, usize)> = Vec::new();
    let mut i: usize = 0;
    while i < n
        invariant
            i <= n,
            n == lines.len(),
            n >= 1,
            all == lines_view(lines@),
            gaps == n - 1,
            font == font_size,
            span == gaps * font,
            half == span / 2,
            half <= cy,
            cy + span - half <= usize::MAX,
            texts.len() == i,
            forall|k: int|
                0 <= k < i ==> (#[trigger] texts@[k]).0@ == all[k] && texts@[k].1 == cy + k
                    * font_size - half,
        decreases n - i,
    {
        let step: u128 = i as u128;
        assert(step * font <= gaps * font) by (nonlinear_arith)
            requires
                0 <= step <= gaps,
                0 <= font,
        ;
        let at: u128 = cy as u128 + step * font - half;
        texts.push((lines[i].clone(), at as usize));
        i += 1;
    }
    assert(rows_view(texts@) =~= text_rows(text_lines(content@), cy as nat, font_size as nat));
    texts
}

/// `content` with each reserved character replaced by its named entity.
pub fn escape_xml(content: &str) -> (s: String)
    ensures
        s@ == escape(content@),
{
    let mut s = String::new();
    for c in it: content.chars()
        invariant
            it.seq() == content@,
            s@ == escape(content@.take(it.index() as int)),
    {
        let ghost before = content@.take(it.index() as int);
        let ghost after = content@.take(it.index() + 1);
        assert(after.drop_last() =~= before);
        assert(after.last() == c);
        proof {
            reveal_strlit("&quot;");
            reveal_strlit("&apos;");
            reveal_strlit("&lt;");
            reveal_strlit("&gt;");
            reveal_strlit("&amp;");
        }
        if c == '"' {
            s.append("&quot;");
        } else if c == '\'' {
            s.append("&apos;");
        } else if c == '<' {
            s.append("&lt;");
        } else if c == '>' {
            s.append("&gt;");
        } else if c == '&' {
            s.append("&amp;");
        } else {
            s.push(c);
        }
        assert(s@ =~= escape(before) + escape_char(c));
    }
    assert(content@.take(content@.len() as int) =~= content@);
    s
}

/// What a block stands for in a flowchart; it decides the outline and how
/// the block is sized.
#[derive(Clone, Copy, Debug, PartialEq, Eq, Structural)]
pub enum BlockKind {
    Terminal,
    IO,
    Process,
    Decision,
}

/// A block as a mathematical value.
pub struct BlockView {
    pub kind: BlockKind,
    pub x: nat,
    pub y: nat,
    pub width: nat,
    pub height: nat,
    pub theta: Option<Slant>,
    pub texts: Seq<(Seq<char>, nat)>,
}

impl BlockView {
    /// The block has an extent, lies within what machine words hold, carries
    /// a slant exactly if it is an I/O block, and every text row stands
    /// between its top and its bottom.
    pub open spec fn valid(self) -> bool {
        &&& self.width > 0
        &&& self.height > 0
        &&& self.x + self.width <= usize::MAX
        &&& self.y + self.height <= usize::MAX
        &&& self.theta is Some <==> self.kind == BlockKind::IO
        &&& forall|i: int|
            0 <= i < self.texts.len() ==> self.y <= (#[trigger] self.texts[i]).1 <= self.y
                + self.height
    }

    /// The middle of the top edge.
    pub open spec fn top_anchor(self) -> (nat, nat) {
        (self.x + self.width / 2, self.y)
    }

    /// The middle of the bottom edge.
    pub open spec fn bottom_anchor(self) -> (nat, nat) {
        (self.x + self.width / 2, self.y + self.height)
    }

    /// Both dimensions are multiples of the grid size of `c` and reach its
    /// minimum dimensions.
    pub open spec fn on_grid(self, c: ConfigView) -> bool {
        &&& self.width % c.grid_size == 0
        &&& self.height % c.grid_size == 0
        &&& self.width >= c.min_width
        &&& self.height >= c.min_height
    }

    /// The outline can be drawn: for a block with a slant, the sideways
    /// offset of its slanted edges does not reach past its right edge, nor
    /// beyond what a machine word holds.
    pub open spec fn drawable(self) -> bool {
        self.theta matches Some(slant) ==> {
            &&& slant.rise > 0
            &&& slant.offset(self.height as int) <= self.x + self.width
            &&& self.x + slant.offset(self.height as int) <= usize::MAX
        }
    }

    /// The block moved by `(dx, dy)`, its text rows with it.
    pub open spec fn translated(self, dx: nat, dy: nat) -> BlockView {
        BlockView {
            x: self.x + dx,
            y: self.y + dy,
            texts: Seq::new(self.texts.len(), |i: int| (self.texts[i].0, self.texts[i].1 + dy)),
            ..self
        }
    }

    /// The outline that the kind calls for, on the block's bounding box.
    pub open spec fn outline(self) -> ShapeModel {
        match self.kind {
            BlockKind::Terminal => ShapeModel::Stadium {
                x: self.x,
                y: self.y,
                width: self.width,
                height: self.height,
            },
            BlockKind::IO => ShapeModel::Parallelogram {
                x: self.x,
                y: self.y,
                theta: self.theta->0,
                width: self.width,
                height: self.height,
            },
            BlockKind::Process => ShapeModel::Rect {
                x: self.x,
                y: self.y,
                width: self.width,
                height: self.height,
            },
            BlockKind::Decision => ShapeModel::Diamond {
                x: self.x,
                y: self.y,
                width: self.width,
                height: self.height,
            },
        }
    }

    /// The text rows as shapes: each centred on the block's vertical axis,
    /// its content escaped.
    pub open spec fn labels(self) -> Seq<ShapeModel> {
        Seq::new(
            self.texts.len(),
            |i: int|
                ShapeModel::Text {
                    cx: self.x + self.width / 2,
                    cy: self.texts[i].1,
                    content: escape(self.texts[i].0),
                },
        )
    }

    /// The block as a group of shapes: its text rows in order, then its
    /// outline.
    pub open spec fn shape(self) -> ShapeModel {
        ShapeModel::Group(self.labels().push(self.outline()))
    }
}

/// The shapes of a valid block whose outline can be drawn can be written at
/// every depth.
pub proof fn lemma_block_shape_renderable(b: BlockView, indent: nat)
    requires
        b.valid(),
        b.drawable(),
        indent < usize::MAX,
    ensures
        b.shape().renderable(indent),
{
    let children = b.shape()->Group_0;
    assert forall|i: int| 0 <= i < children.len() implies (#[trigger] children[i]).renderable(
        (indent + 1) as nat,
    ) by {
        if i < b.texts.len() {
            assert(children[i] == b.labels()[i]);
        } else {
            assert(children[i] == b.outline());
        }
    }
}

/// A flowchart node: a kind, a bounding box and rows of text.
pub struct Block {
    kind: BlockKind,
    x: usize,
    y: usize,
    width: usize,
    height: usize,
    theta: Option<Slant>,
    texts: Vec<(String, usize)>,
}

impl View for Block {
    type V = BlockView;

    closed spec fn view(&self) -> BlockView {
        BlockView {
            kind: self.kind,
            x: self.x as nat,
            y: self.y as nat,
            width: self.width as nat,
            height: self.height as nat,
            theta: self.theta,
            texts: rows_view(self.texts@),
        }
    }
}

impl Block {
    /// Moves the block and its text rows by `(dx, dy)`.
    pub fn displace(&mut self, dx: usize, dy: usize)
        requires
            old(self)@.valid(),
            old(self)@.x + old(self)@.width + dx <= usize::MAX,
            old(self)@.y + old(self)@.height + dy <= usize::MAX,
        ensures
            final(self)@ == old(self)@.translated(dx as nat, dy as nat),
            final(self)@.valid(),
    {
        let ghost before = self@;
        self.x = self.x + dx;
        self.y = self.y + dy;
        let mut i: usize = 0;
        while i < self.texts.len()
            invariant
                i <= self.texts.len(),
                self.texts.len() == before.texts.len(),
                self.kind == before.kind,
                self.x == before.x + dx,
                self.y == before.y + dy,
                self.width == before.width,
                self.height == before.height,
                self.theta == before.theta,
                before.valid(),
                before.y + before.height + dy <= usize::MAX,
                forall|k: int|
                    0 <= k < self.texts.len() ==> (#[trigger] self.texts@[k]).0@
                        == before.texts[k].0,
                forall|k: int|
                    0 <= k < i ==> (#[trigger] self.texts@[k]).1 == before.texts[k].1 + dy,
                forall|k: int|
                    i <= k < self.texts.len() ==> (#[trigger] self.texts@[k]).1
                        == before.texts[k].1,
            decreases self.texts.len() - i,
        {
            assert(before.y <= before.texts[i as int].1 <= before.y + before.height);
            self.texts[i].1 = self.texts[i].1 + dy;
            i += 1;
        }
        assert(self@.texts =~= before.translated(dx as nat, dy as nat).texts);
    }

    /// The top left corner.
    pub fn pos(&self) -> (p: (usize, usize))
        ensures
            p.0 == self@.x,
            p.1 == self@.y,
    {
        (self.x, self.y)
    }

    /// The middle of the top edge.
    pub fn top_pos(&self) -> (p: (usize, usize))
        requires
            self@.valid(),
        ensures
            (p.0 as nat, p.1 as nat) == self@.top_anchor(),
    {
        (self.x + self.width / 2, self.y)
    }

    /// The middle of the bottom edge.
    pub fn bottom_pos(&self) -> (p: (usize, usize))
        requires
            self@.valid(),
        ensures
            (p.0 as nat, p.1 as nat) == self@.bottom_anchor(),
    {
        (self.x + self.width / 2, self.y + self.height)
    }

    pub fn width(&self) -> (w: usize)
        ensures
            w == self@.width,
    {
        self.width
    }

    pub fn height(&self) -> (h: usize)
        ensures
            h == self@.height,
    {
        self.height
    }

    /// The block as shapes: a group of its text rows, then its outline.
    pub fn to_svg(&self) -> (shape: SvgShape)
        requires
            self@.valid(),
        ensures
            shape@ == self@.shape(),
    {
        let (x, y) = (self.x, self.y);
        let (width, height) = (self.width, self.height);
        let mut items = self.to_texts();
        let ghost labels = items@;
        let outline = match self.kind {
            BlockKind::Terminal => SvgShape::Stadium { x, y, width, height },
            BlockKind::IO => SvgShape::Parallelogram {
                x,
                y,
                theta: self.theta.unwrap(),
                width,
                height,
            },
            BlockKind::Process => SvgShape::Rect { x, y, width, height },
            BlockKind::Decision => SvgShape::Diamond { x, y, width, height },
        };
        assert(outline@ == self@.outline());
        items.push(outline);
        proof {
            SvgShape::lemma_models(items@, items@.len());
            assert(SvgShape::models(items@, items@.len()) =~= self@.labels().push(
                self@.outline(),
            ));
        }
        SvgShape::Group(items)
    }

    fn to_texts(&self) -> (items: Vec<SvgShape>)
        requires
            self@.valid(),
        ensures
            items@.len() == self@.texts.len(),
            forall|i: int| 0 <= i < items@.len() ==> (#[trigger] items@[i])@ == self@.labels()[i],
    {
        let cx = self.x + self.width / 2;
        let mut items: Vec<SvgShape> = Vec::new();
        let mut i: usize = 0;
        while i < self.texts.len()
            invariant
                i <= self.texts.len(),
                items.len() == i,
                cx == self.x + self.width / 2,
                forall|k: int| 0 <= k < i ==> (#[trigger] items@[k])@ == self@.labels()[k],
            decreases self.texts.len() - i,
        {
            let row = &self.texts[i];
            let text = SvgShape::Text { cx, cy: row.1, content: escape_xml(row.0.as_str()) };
            assert(text@ == self@.labels()[i as int]);
            items.push(text);
            i += 1;
        }
        items
    }
}

/// `v` rounded up to the next multiple of `grid`.
pub open spec fn round_up(v: nat, grid: nat) -> nat {
    (((v + grid - 1) / (grid as int)) * grid) as nat
}

/// The box that a text of so many columns and rows alone needs: half a font
/// size per column and a font size per row, with a font size of padding on
/// every side.
pub open spec fn content_box(c: ConfigView, columns: nat, rows: nat) -> (nat, nat) {
    (
        (c.font_size / 2 * columns + 2 * c.font_size) as nat,
        (c.font_size * rows + 2 * c.font_size) as nat,
    )
}

/// The content box widened for the outline of the kind: by its height for
/// the round caps of a terminal, by the slant's padding for an I/O block, and
/// doubled both ways for the diamond of a decision.
pub open spec fn kind_box(c: ConfigView, kind: BlockKind, columns: nat, rows: nat) -> (nat, nat) {
    let (w, h) = content_box(c, columns, rows);
    match kind {
        BlockKind::Terminal => (w + h, h),
        BlockKind::IO => ((w + c.slant.padding(h as int)) as nat, h),
        BlockKind::Process => (w, h),
        BlockKind::Decision => (2 * w, 2 * h),
    }
}

/// A box raised to the minimum dimensions, then rounded up to the grid.
pub open spec fn fitted(c: ConfigView, width: nat, height: nat) -> (nat, nat) {
    (
        round_up(if width > c.min_width { width } else { c.min_width }, c.grid_size),
        round_up(if height > c.min_height { height } else { c.min_height }, c.grid_size),
    )
}

/// Width and height of the block of the given kind around a text of so many
/// columns and rows.
pub open spec fn block_size(c: ConfigView, kind: BlockKind, columns: nat, rows: nat) -> (
    nat,
    nat,
) {
    let (w, h) = kind_box(c, kind, columns, rows);
    fitted(c, w, h)
}

/// Width and height of the block of the given kind around `content`: the
/// size for the columns of its widest line and the number of its lines.
pub open spec fn size_of(c: ConfigView, kind: BlockKind, content: Seq<char>) -> (nat, nat) {
    block_size(c, kind, widest(text_lines(content)), text_lines(content).len())
}

/// Both dimensions of the block fit a machine word.
pub open spec fn fits(c: ConfigView, kind: BlockKind, content: Seq<char>) -> bool {
    size_of(c, kind, content).0 <= usize::MAX && size_of(c, kind, content).1 <= usize::MAX
}

/// The block of the given kind around `content`: at the origin, sized to
/// the text and the grid, its lines centred on its middle.
pub open spec fn built(c: ConfigView, kind: BlockKind, content: Seq<char>) -> BlockView {
    let (w, h) = size_of(c, kind, content);
    BlockView {
        kind,
        x: 0,
        y: 0,
        width: w,
        height: h,
        theta: if kind == BlockKind::IO {
            Some(c.slant)
        } else {
            None
        },
        texts: text_rows(text_lines(content), h / 2, c.font_size),
    }
}

/// Rounding up reaches the next multiple of the grid and goes no further.
pub proof fn lemma_round_up(v: nat, grid: nat)
    requires
        grid > 0,
    ensures
        round_up(v, grid) == if v % grid == 0 {
            v as int
        } else {
            v - v % grid + grid
        },
        round_up(v, grid) % grid == 0,
        v <= round_up(v, grid) < v + grid,
        v % grid <= v,
{
    let g = grid as int;
    let q = v as int / g;
    let r = v as int % g;
    assert(v == g * q + r && 0 <= r < g && 0 <= g * q) by (nonlinear_arith)
        requires
            g > 0,
            v >= 0,
            q == v as int / g,
            r == v as int % g,
    ;
    if r == 0 {
        lemma_fundamental_div_mod_converse(v + g - 1, g, q, g - 1);
        assert(q * g == v) by (nonlinear_arith)
            requires
                v == g * q,
        ;
        assert((q * g) % g == 0) by (nonlinear_arith)
            requires
                g > 0,
        ;
    } else {
        assert(v + g - 1 == (q + 1) * g + (r - 1)) by (nonlinear_arith)
            requires
                v == g * q + r,
        ;
        lemma_fundamental_div_mod_converse(v + g - 1, g, q + 1, r - 1);
        assert((q + 1) * g == v - r + g) by (nonlinear_arith)
            requires
                v == g * q + r,
        ;
        assert(((q + 1) * g) % g == 0) by (nonlinear_arith)
            requires
                g > 0,
        ;
    }
}

/// Rounding up keeps the order of what it rounds.
pub proof fn lemma_round_up_monotone(a: nat, b: nat, grid: nat)
    requires
        grid > 0,
        a <= b,
    ensures
        round_up(a, grid) <= round_up(b, grid),
{
    let g = grid as int;
    lemma_div_is_ordered(a + g - 1, b + g - 1, g);
    lemma_mul_inequality((a + g - 1) / g, (b + g - 1) / g, g);
}

/// Every block size lies on the grid and reaches the configured minimum
/// dimensions.
pub proof fn lemma_grid_alignment(c: ConfigView, kind: BlockKind, columns: nat, rows: nat)
    requires
        c.valid(),
    ensures
        block_size(c, kind, columns, rows).0 % c.grid_size == 0,
        block_size(c, kind, columns, rows).1 % c.grid_size == 0,
        block_size(c, kind, columns, rows).0 >= c.min_width,
        block_size(c, kind, columns, rows).1 >= c.min_height,
{
    let (w, h) = kind_box(c, kind, columns, rows);
    lemma_round_up(if w > c.min_width { w } else { c.min_width }, c.grid_size);
    lemma_round_up(if h > c.min_height { h } else { c.min_height }, c.grid_size);
}

/// Every built block lies on the grid and reaches the configured minimum
/// dimensions.
pub proof fn lemma_built_on_grid(c: ConfigView, kind: BlockKind, content: Seq<char>)
    requires
        c.valid(),
    ensures
        built(c, kind, content).on_grid(c),
{
    lemma_grid_alignment(c, kind, widest(text_lines(content)), text_lines(content).len());
}

/// For the same text a decision block is at least as wide and as high as a
/// process block, and a terminal block at least as wide.
pub proof fn lemma_kind_ordering(c: ConfigView, columns: nat, rows: nat)
    requires
        c.valid(),
    ensures
        block_size(c, BlockKind::Decision, columns, rows).0 >= block_size(
            c,
            BlockKind::Process,
            columns,
            rows,
        ).0,
        block_size(c, BlockKind::Decision, columns, rows).1 >= block_size(
            c,
            BlockKind::Process,
            columns,
            rows,
        ).1,
        block_size(c, BlockKind::Terminal, columns, rows).0 >= block_size(
            c,
            BlockKind::Process,
            columns,
            rows,
        ).0,
{
    let (w, h) = content_box(c, columns, rows);
    let low_w = if w > c.min_width { w } else { c.min_width };
    let low_h = if h > c.min_height { h } else { c.min_height };
    let (dw, dh) = kind_box(c, BlockKind::Decision, columns, rows);
    let (tw, th) = kind_box(c, BlockKind::Terminal, columns, rows);
    lemma_round_up_monotone(low_w, if dw > c.min_width { dw } else { c.min_width }, c.grid_size);
    lemma_round_up_monotone(low_h, if dh > c.min_height { dh } else { c.min_height }, c.grid_size);
    lemma_round_up_monotone(low_w, if tw > c.min_width { tw } else { c.min_width }, c.grid_size);
}

/// For the same content a built decision block is at least as wide and as
/// high as a built process block, and a built terminal block at least as
/// wide.
pub proof fn lemma_built_kind_ordering(c: ConfigView, content: Seq<char>)
    requires
        c.valid(),
    ensures
        built(c, BlockKind::Decision, content).width >= built(
            c,
            BlockKind::Process,
            content,
        ).width,
        built(c, BlockKind::Decision, content).height >= built(
            c,
            BlockKind::Process,
            content,
        ).height,
        built(c, BlockKind::Terminal, content).width >= built(
            c,
            BlockKind::Process,
            content,
        ).width,
{
    lemma_kind_ordering(c, widest(text_lines(content)), text_lines(content).len());
}

/// The box of a kind is no smaller than the content box, and the fitted box
/// no smaller than the box of the kind.
proof fn lemma_box_growth(c: ConfigView, kind: BlockKind, columns: nat, rows: nat)
    requires
        c.valid(),
    ensures
        content_box(c, columns, rows).0 <= kind_box(c, kind, columns, rows).0 <= block_size(
            c,
            kind,
            columns,
            rows,
        ).0,
        content_box(c, columns, rows).1 <= kind_box(c, kind, columns, rows).1 <= block_size(
            c,
            kind,
            columns,
            rows,
        ).1,
        c.font_size * rows + 2 * c.font_size == content_box(c, columns, rows).1,
{
    let (w, h) = content_box(c, columns, rows);
    let (kw, kh) = kind_box(c, kind, columns, rows);
    assert(c.font_size / 2 * columns >= 0 && c.font_size * rows >= 0) by (nonlinear_arith);
    assert(c.slant.padding(h as int) >= 0) by (nonlinear_arith)
        requires
            h >= 0,
            c.slant.rise > 0,
            c.slant.run >= 0,
            c.slant.padding(h as int) == (2 * h * c.slant.run + c.slant.rise - 1) / (
            c.slant.rise as int),
    ;
    lemma_round_up(if kw > c.min_width { kw } else { c.min_width }, c.grid_size);
    lemma_round_up(if kh > c.min_height { kh } else { c.min_height }, c.grid_size);
}

/// In a block that fits, the rows of text stand between its top and what a
/// machine word holds.
proof fn lemma_rows_fit(c: ConfigView, kind: BlockKind, content: Seq<char>)
    requires
        c.valid(),
        fits(c, kind, content),
    ensures
        ({
            let span = (text_lines(content).len() - 1) * c.font_size;
            let height = size_of(c, kind, content).1;
            let middle = height / 2;
            0 <= span <= height && span / 2 <= middle && middle + span - span / 2 <= height
                <= usize::MAX
        }),
{
    let lines = text_lines(content);
    let n = lines.len() as int;
    let font = c.font_size as int;
    crate::text::lemma_text_lines_nonempty(content);
    lemma_box_growth(c, kind, widest(lines), lines.len());
    assert(0 <= (n - 1) * font && (n - 1) * font + 3 * font == font * n + 2 * font)
        by (nonlinear_arith)
        requires
            n >= 1,
            font >= 0,
    ;
}

/// A built block that fits is valid: its text rows stand inside it.
pub proof fn lemma_built_valid(c: ConfigView, kind: BlockKind, content: Seq<char>)
    requires
        c.valid(),
        fits(c, kind, content),
    ensures
        built(c, kind, content).valid(),
{
    let lines = text_lines(content);
    let b = built(c, kind, content);
    let n = lines.len() as int;
    let font = c.font_size as int;
    let span = (n - 1) * font;
    lemma_rows_fit(c, kind, content);
    lemma_grid_alignment(c, kind, widest(lines), lines.len());
    assert forall|i: int| 0 <= i < b.texts.len() implies b.y <= (#[trigger] b.texts[i]).1 <= b.y
        + b.height by {
        assert(0 <= i * font <= span) by (nonlinear_arith)
            requires
                0 <= i <= n - 1,
                font >= 0,
                span == (n - 1) * font,
        ;
    }
}

fn mul_add(a: usize, b: usize, c: usize) -> (r: Option<usize>)
    ensures
        r is Some <==> a * b + c <= usize::MAX,
        r matches Some(v) ==> v == a * b + c,
{
    assert(a * b >= 0) by (nonlinear_arith)
        requires
            a >= 0,
            b >= 0,
    ;
    match a.checked_mul(b) {
        Some(p) => p.checked_add(c),
        None => None,
    }
}

fn round_up_to(v: usize, grid: usize) -> (r: Option<usize>)
    requires
        grid > 0,
    ensures
        r is Some <==> round_up(v as nat, grid as nat) <= usize::MAX,
        r matches Some(u) ==> u == round_up(v as nat, grid as nat),
{
    proof {
        lemma_round_up(v as nat, grid as nat);
    }
    let rem = v % grid;
    if rem == 0 {
        Some(v)
    } else {
        (v - rem).checked_add(grid)
    }
}


fn round_up_within(v: usize, grid: usize) -> (u: usize)
    requires
        grid > 0,
        round_up(v as nat, grid as nat) <= usize::MAX,
    ensures
        u == round_up(v as nat, grid as nat),
{
    proof {
        lemma_round_up(v as nat, grid as nat);
    }
    let rem = v % grid;
    if rem == 0 {
        v
    } else {
        v - rem + grid
    }
}

/// Builds blocks from a kind and a text under fixed settings.
pub struct BlockBuilder {
    grid_size: usize,
    font_size: usize,
    min_width: usize,
    min_height: usize,
    theta: Slant,
}

impl View for BlockBuilder {
    type V = ConfigView;

    closed spec fn view(&self) -> ConfigView {
        ConfigView {
            grid_size: self.grid_size as nat,
            font_size: self.font_size as nat,
            min_width: self.min_width as nat,
            min_height: self.min_height as nat,
            slant: self.theta,
        }
    }
}

impl BlockBuilder {
    #[verifier::type_invariant]
    spec fn settings_in_range(self) -> bool {
        self@.valid()
    }

    pub fn new(config: &Config) -> (b: Self)
        ensures
            b@ == config@,
            b@.valid(),
    {
        Self {
            grid_size: config.grid_size(),
            font_size: config.font_size(),
            min_width: config.min_widht(),
            min_height: config.min_height(),
            theta: config.theta(),
        }
    }

    /// Width and height of the block of the given kind around a text of so
    /// many columns and lines, or `None` exactly when one of them does not
    /// fit a machine word.
    pub fn size(&self, kind: BlockKind, num_columns: usize, num_lines: usize) -> (r: Option<
        (usize, usize),
    >)
        ensures
            r is Some <==> block_size(self@, kind, num_columns as nat, num_lines as nat).0
                <= usize::MAX && block_size(self@, kind, num_columns as nat, num_lines as nat).1
                <= usize::MAX,
            r matches Some(s) ==> (s.0 as nat, s.1 as nat) == block_size(
                self@,
                kind,
                num_columns as nat,
                num_lines as nat,
            ),
            self@.valid(),
    {
        proof {
            use_type_invariant(self);
            lemma_box_growth(self@, kind, num_columns as nat, num_lines as nat);
        }
        assert(self.font_size / 2 * num_columns >= 0 && self.font_size * num_lines >= 0)
            by (nonlinear_arith);
        let padding = self.font_size.checked_mul(2)?;
        let width = mul_add(self.font_size / 2, num_columns, padding)?;
        let height = mul_add(self.font_size, num_lines, padding)?;
        let (width, height) = match kind {
            BlockKind::Terminal => (width.checked_add(height)?, height),
            BlockKind::IO => (width.checked_add(self.theta.checked_padding(height)?)?, height),
            BlockKind::Process => (width, height),
            BlockKind::Decision => (width.checked_mul(2)?, height.checked_mul(2)?),
        };
        let width = if width > self.min_width {
            width
        } else {
            self.min_width
        };
        let height = if height > self.min_height {
            height
        } else {
            self.min_height
        };
        let width = round_up_to(width, self.grid_size)?;
        let height = round_up_to(height, self.grid_size)?;
        Some((width, height))
    }

    /// Width and height of the block of the given kind around `content`, or
    /// `None` exactly when one of them does not fit a machine word.
    pub fn measure(&self, kind: BlockKind, content: &str) -> (r: Option<(usize, usize)>)
        ensures
            r is Some <==> fits(self@, kind, content@),
            r matches Some(s) ==> (s.0 as nat, s.1 as nat) == size_of(self@, kind, content@),
            self@.valid(),
    {
        let (num_columns, num_lines) = get_num_columns_num_lines(content);
        self.size(kind, num_columns, num_lines)
    }

    fn estimate_text_width_height(&self, content: &str) -> (b: (usize, usize))
        requires
            content_box(self@, widest(text_lines(content@)), text_lines(content@).len()).0
                <= usize::MAX,
            content_box(self@, widest(text_lines(content@)), text_lines(content@).len()).1
                <= usize::MAX,
        ensures
            (b.0 as nat, b.1 as nat) == content_box(
                self@,
                widest(text_lines(content@)),
                text_lines(content@).len(),
            ),
    {
        let (num_columns, num_lines) = get_num_columns_num_lines(content);
        assert(self.font_size / 2 * num_columns >= 0 && self.font_size * num_lines >= 0)
            by (nonlinear_arith);
        (
            self.font_size / 2 * num_columns + 2 * self.font_size,
            self.font_size * num_lines + 2 * self.font_size,
        )
    }

    fn fit_to_grid(&self, width: usize, height: usize) -> (b: (usize, usize))
        requires
            fitted(self@, width as nat, height as nat).0 <= usize::MAX,
            fitted(self@, width as nat, height as nat).1 <= usize::MAX,
        ensures
            (b.0 as nat, b.1 as nat) == fitted(self@, width as nat, height as nat),
    {
        proof {
            use_type_invariant(self);
        }
        let width = if width > self.min_width {
            width
        } else {
            self.min_width
        };
        let height = if height > self.min_height {
            height
        } else {
            self.min_height
        };
        (round_up_within(width, self.grid_size), round_up_within(height, self.grid_size))
    }

    fn build_terminal(&self, content: String) -> (b: Block)
        requires
            fits(self@, BlockKind::Terminal, content@),
        ensures
            b@ == built(self@, BlockKind::Terminal, content@),
            b@.valid(),
    {
        proof {
            use_type_invariant(self);
            lemma_box_growth(
                self@,
                BlockKind::Terminal,
                widest(text_lines(content@)),
                text_lines(content@).len(),
            );
            lemma_rows_fit(self@, BlockKind::Terminal, content@);
            lemma_built_valid(self@, BlockKind::Terminal, content@);
        }
        let (width, height) = self.estimate_text_width_height(content.as_str());
        // The caps are half circles whose diameter is the height; the text
        // stays clear of them.
        let width = width + height;
        let (width, height) = self.fit_to_grid(width, height);
        Block {
            kind: BlockKind::Terminal,
            x: 0,
            y: 0,
            width,
            height,
            theta: None,
            texts: get_texts(content, height / 2, self.font_size),
        }
    }

    fn build_io(&self, content: String) -> (b: Block)
        requires
            fits(self@, BlockKind::IO, content@),
        ensures
            b@ == built(self@, BlockKind::IO, content@),
            b@.valid(),
    {
        proof {
            use_type_invariant(self);
            lemma_box_growth(
                self@,
                BlockKind::IO,
                widest(text_lines(content@)),
                text_lines(content@).len(),
            );
            lemma_rows_fit(self@, BlockKind::IO, content@);
            lemma_built_valid(self@, BlockKind::IO, content@);
        }
        let (width, height) = self.estimate_text_width_height(content.as_str());
        let width = width + self.theta.checked_padding(height).unwrap();
        let (width, height) = self.fit_to_grid(width, height);
        Block {
            kind: BlockKind::IO,
            x: 0,
            y: 0,
            width,
            height,
            theta: Some(self.theta),
            texts: get_texts(content, height / 2, self.font_size),
        }
    }

    fn build_process(&self, content: String) -> (b: Block)
        requires
            fits(self@, BlockKind::Process, content@),
        ensures
            b@ == built(self@, BlockKind::Process, content@),
            b@.valid(),
    {
        proof {
            use_type_invariant(self);
            lemma_box_growth(
                self@,
                BlockKind::Process,
                widest(text_lines(content@)),
                text_lines(content@).len(),
            );
            lemma_rows_fit(self@, BlockKind::Process, content@);
            lemma_built_valid(self@, BlockKind::Process, content@);
        }
        let (width, height) = self.estimate_text_width_height(content.as_str());
        let (width, height) = self.fit_to_grid(width, height);
        Block {
            kind: BlockKind::Process,
            x: 0,
            y: 0,
            width,
            height,
            theta: None,
            texts: get_texts(content, height / 2, self.font_size),
        }
    }

    fn build_decision(&self, content: String) -> (b: Block)
        requires
            fits(self@, BlockKind::Decision, content@),
        ensures
            b@ == built(self@, BlockKind::Decision, content@),
            b@.valid(),
    {
        proof {
            use_type_invariant(self);
            lemma_box_growth(
                self@,
                BlockKind::Decision,
                widest(text_lines(content@)),
                text_lines(content@).len(),
            );
            lemma_rows_fit(self@, BlockKind::Decision, content@);
            lemma_built_valid(self@, BlockKind::Decision, content@);
        }
        let (width, height) = self.estimate_text_width_height(content.as_str());
        let (width, height) = (2 * width, 2 * height);
        let (width, height) = self.fit_to_grid(width, height);
        Block {
            kind: BlockKind::Decision,
            x: 0,
            y: 0,
            width,
            height,
            theta: None,
            texts: get_texts(content, height / 2, self.font_size),
        }
    }

    /// The block of the given kind around `content`: at the origin, on the
    /// grid, no smaller than the configured minimum.
    pub fn build(&self, kind: BlockKind, content: String) -> (b: Block)
        requires
            fits(self@, kind, content@),
        ensures
            b@ == built(self@, kind, content@),
            b@.valid(),
            b@.width % self@.grid_size == 0,
            b@.height % self@.grid_size == 0,
            b@.width >= self@.min_width,
            b@.height >= self@.min_height,
            self@.valid(),
    {
        proof {
            use_type_invariant(self);
            lemma_built_on_grid(self@, kind, content@);
        }
        match kind {
            BlockKind::Terminal => self.build_terminal(content),
            BlockKind::IO => self.build_io(content),
            BlockKind::Process => self.build_process(content),
            BlockKind::Decision => self.build_decision(content),
        }
    }

    /// `build` where the block's dimensions fit a machine word; `None`
    /// exactly where they do not.
    pub fn try_build(&self, kind: BlockKind, content: String) -> (r: Option<Block>)
        ensures
            r is Some <==> fits(self@, kind, content@),
            r matches Some(b) ==> {
                &&& b@ == built(self@, kind, content@)
                &&& b@.valid()
                &&& b@.width % self@.grid_size == 0
                &&& b@.height % self@.grid_size == 0
                &&& b@.width >= self@.min_width
                &&& b@.height >= self@.min_height
            },
    {
        match self.measure(kind, content.as_str()) {
            Some(_) => Some(self.build(kind, content)),
            None => None,
        }
    }
}

} // verus!
