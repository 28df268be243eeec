//! Chains: blocks stacked top to bottom on one vertical axis, joined by
//! arrows.

use crate::block::{
    built, fits, lemma_block_shape_renderable, Block, BlockBuilder, BlockKind, BlockView,
};
use crate::config::{Config, ConfigView};
use crate::svg::{ShapeModel, SvgShape};
use vstd::prelude::*;

verus! {

/// A chain as a mathematical value.
pub struct ChainView {
    /// The settings that new blocks are built under.
    pub builder: ConfigView,
    /// The gap between the bottom of a block and the top of the next.
    pub distance: nat,
    pub blocks: Seq<BlockView>,
}

impl ChainView {
    /// Each block's bottom anchor stands right above the next block's top
    /// anchor.
    pub open spec fn aligned(self) -> bool {
        forall|i: int, j: int|
            0 <= i && j == i + 1 && j < self.blocks.len() ==> (
            #[trigger] self.blocks[i]).bottom_anchor().0 == (
            #[trigger] self.blocks[j]).top_anchor().0
    }

    /// Each block's top lies `distance` below the bottom of the block before
    /// it.
    pub open spec fn spaced(self) -> bool {
        forall|i: int, j: int|
            0 <= i && j == i + 1 && j < self.blocks.len() ==> (#[trigger] self.blocks[j]).y == (
            #[trigger] self.blocks[i]).y + self.blocks[i].height + self.distance
    }

    /// The chain is not empty; its blocks are valid, lie on the grid of the
    /// settings they were built under, and are aligned and spaced.
    pub open spec fn valid(self) -> bool {
        &&& self.blocks.len() >= 1
        &&& self.builder.valid()
        &&& forall|i: int| 0 <= i < self.blocks.len() ==> (#[trigger] self.blocks[i]).valid()
        &&& forall|i: int|
            0 <= i < self.blocks.len() ==> (#[trigger] self.blocks[i]).on_grid(self.builder)
        &&& self.aligned()
        &&& self.spaced()
    }

    /// The outline of every block can be drawn.
    pub open spec fn drawable(self) -> bool {
        forall|i: int| 0 <= i < self.blocks.len() ==> (#[trigger] self.blocks[i]).drawable()
    }

    /// The bottom anchor of the last block.
    pub open spec fn bottom_anchor(self) -> (nat, nat) {
        self.blocks.last().bottom_anchor()
    }

    /// The chain with every block moved by `(dx, dy)`.
    pub open spec fn translated(self, dx: nat, dy: nat) -> ChainView {
        ChainView {
            blocks: Seq::new(self.blocks.len(), |i: int| self.blocks[i].translated(dx, dy)),
            ..self
        }
    }

    /// Moving every block by `(dx, dy)` keeps all of them within what machine
    /// words hold.
    pub open spec fn can_translate(self, dx: nat, dy: nat) -> bool {
        forall|i: int|
            0 <= i < self.blocks.len() ==> (#[trigger] self.blocks[i]).x + self.blocks[i].width
                + dx <= usize::MAX && self.blocks[i].y + self.blocks[i].height + dy
                <= usize::MAX
    }

    /// How far the chain moves right to stand under a block whose top anchor
    /// is at `top_x`: the excess of `top_x` over the chain's bottom anchor.
    pub open spec fn shift_of_chain(self, top_x: nat) -> nat {
        if top_x > self.bottom_anchor().0 {
            (top_x - self.bottom_anchor().0) as nat
        } else {
            0
        }
    }

    /// How far a block whose top anchor is at `top_x` moves right to stand
    /// under the chain: the excess of the chain's bottom anchor over `top_x`.
    pub open spec fn shift_of_block(self, top_x: nat) -> nat {
        if top_x < self.bottom_anchor().0 {
            (self.bottom_anchor().0 - top_x) as nat
        } else {
            0
        }
    }

    /// The chain with `b` added below its last block. Whichever of the two is
    /// further left moves right until the anchors meet, the other keeps its
    /// place; then `b` moves down to `distance` below the chain.
    pub open spec fn appended(self, b: BlockView) -> ChainView {
        let top_x = b.top_anchor().0;
        ChainView {
            blocks: self.translated(self.shift_of_chain(top_x), 0).blocks.push(
                b.translated(self.shift_of_block(top_x), self.bottom_anchor().1 + self.distance),
            ),
            ..self
        }
    }

    /// Adding `b` keeps every block within what machine words hold.
    pub open spec fn can_append(self, b: BlockView) -> bool {
        let top_x = b.top_anchor().0;
        &&& self.can_translate(self.shift_of_chain(top_x), 0)
        &&& b.x + b.width + self.shift_of_block(top_x) <= usize::MAX
        &&& b.y + b.height + self.bottom_anchor().1 + self.distance <= usize::MAX
    }

    /// The arrow from the bottom anchor of block `i` down to the next block.
    pub open spec fn arrow(self, i: int) -> ShapeModel {
        ShapeModel::DownArrow {
            x: self.blocks[i].bottom_anchor().0,
            y: self.blocks[i].bottom_anchor().1,
            height: self.distance,
        }
    }

    /// The chain as a group of shapes: every block in order, then one arrow
    /// for each block but the last, in order.
    pub open spec fn shape(self) -> ShapeModel {
        let n = self.blocks.len() as int;
        ShapeModel::Group(
            Seq::new(
                (2 * n - 1) as nat,
                |k: int|
                    if k < n {
                        self.blocks[k].shape()
                    } else {
                        self.arrow(k - n)
                    },
            ),
        )
    }

    /// In a valid chain, the bottom anchor of a block and the top anchor of
    /// the block after it have the same `x`.
    pub proof fn lemma_adjacent_aligned(self, i: int)
        requires
            self.valid(),
            0 <= i,
            i + 1 < self.blocks.len(),
        ensures
            self.blocks[i].x + self.blocks[i].width / 2 == self.blocks[i + 1].x + self.blocks[i
                + 1].width / 2,
    {
        assert(self.blocks[i].bottom_anchor().0 == self.blocks[i + 1].top_anchor().0);
    }

    /// In a valid chain, a block's top lies below the bottom of the block
    /// before it by exactly the chain's distance.
    pub proof fn lemma_adjacent_spaced(self, i: int)
        requires
            self.valid(),
            0 <= i,
            i + 1 < self.blocks.len(),
        ensures
            self.blocks[i + 1].y == self.blocks[i].y + self.blocks[i].height + self.distance,
    {
        assert(self.blocks[i + 1].y == self.blocks[i].y + self.blocks[i].height + self.distance);
    }

    /// In a valid chain, every block lies on the grid of the chain's settings
    /// and reaches their minimum dimensions.
    pub proof fn lemma_blocks_on_grid(self, i: int)
        requires
            self.valid(),
            0 <= i < self.blocks.len(),
        ensures
            self.blocks[i].width % self.builder.grid_size == 0,
            self.blocks[i].height % self.builder.grid_size == 0,
            self.blocks[i].width >= self.builder.min_width,
            self.blocks[i].height >= self.builder.min_height,
    {
        assert(self.blocks[i].on_grid(self.builder));
    }

    /// Moving a valid chain keeps it valid.
    pub proof fn lemma_translated_valid(self, dx: nat, dy: nat)
        requires
            self.valid(),
            self.can_translate(dx, dy),
        ensures
            self.translated(dx, dy).valid(),
    {
        let moved = self.translated(dx, dy);
        assert forall|i: int| 0 <= i < moved.blocks.len() implies (
        #[trigger] moved.blocks[i]).valid() by {
            assert(self.blocks[i].valid());
        }
        assert forall|i: int| 0 <= i < moved.blocks.len() implies (
        #[trigger] moved.blocks[i]).on_grid(moved.builder) by {
            assert(self.blocks[i].on_grid(self.builder));
        }
        assert forall|i: int, j: int| 0 <= i && j == i + 1 && j < moved.blocks.len() implies (
        #[trigger] moved.blocks[i]).bottom_anchor().0 == (
        #[trigger] moved.blocks[j]).top_anchor().0 by {
            assert(self.blocks[i].bottom_anchor().0 == self.blocks[j].top_anchor().0);
        }
        assert forall|i: int, j: int| 0 <= i && j == i + 1 && j < moved.blocks.len() implies (
        #[trigger] moved.blocks[j]).y == (#[trigger] moved.blocks[i]).y + moved.blocks[i].height
            + moved.distance by {
            assert(self.blocks[j].y == self.blocks[i].y + self.blocks[i].height + self.distance);
        }
    }

    /// Adding a valid block that stands at the origin to a valid chain gives
    /// a valid chain: the new pair is aligned and spaced, and every earlier
    /// pair stays so.
    pub proof fn lemma_appended_valid(self, b: BlockView)
        requires
            self.valid(),
            b.valid(),
            b.on_grid(self.builder),
            b.x == 0,
            b.y == 0,
            self.can_append(b),
        ensures
            self.appended(b).valid(),
            self.appended(b).aligned(),
            self.appended(b).spaced(),
    {
        let top_x = b.top_anchor().0;
        let n = self.blocks.len() as int;
        let moved = self.translated(self.shift_of_chain(top_x), 0);
        let grown = self.appended(b);
        self.lemma_translated_valid(self.shift_of_chain(top_x), 0);
        assert(self.blocks[n - 1].valid());
        assert forall|i: int| 0 <= i < grown.blocks.len() implies (
        #[trigger] grown.blocks[i]).valid() by {
            if i < n {
                assert(moved.blocks[i].valid());
            }
        }
        assert forall|i: int| 0 <= i < grown.blocks.len() implies (
        #[trigger] grown.blocks[i]).on_grid(grown.builder) by {
            if i < n {
                assert(moved.blocks[i].on_grid(moved.builder));
            }
        }
        assert forall|i: int, j: int| 0 <= i && j == i + 1 && j < grown.blocks.len() implies (
        #[trigger] grown.blocks[i]).bottom_anchor().0 == (
        #[trigger] grown.blocks[j]).top_anchor().0 by {
            if j < n {
                assert(moved.blocks[i].bottom_anchor().0 == moved.blocks[j].top_anchor().0);
            }
        }
        assert forall|i: int, j: int| 0 <= i && j == i + 1 && j < grown.blocks.len() implies (
        #[trigger] grown.blocks[j]).y == (#[trigger] grown.blocks[i]).y + grown.blocks[i].height
            + grown.distance by {
            if j < n {
                assert(moved.blocks[j].y == moved.blocks[i].y + moved.blocks[i].height
                    + moved.distance);
            }
        }
    }

    /// The shapes of a valid chain whose outlines can be drawn can be written
    /// at every depth that leaves room for the level of its blocks.
    pub proof fn lemma_shape_renderable(self, indent: nat)
        requires
            self.valid(),
            self.drawable(),
            indent + 1 < usize::MAX,
        ensures
            self.shape().renderable(indent),
    {
        let n = self.blocks.len() as int;
        let children = self.shape()->Group_0;
        assert forall|k: int| 0 <= k < children.len() implies (#[trigger] children[k]).renderable(
            (indent + 1) as nat,
        ) by {
            if k < n {
                assert(self.blocks[k].valid());
                assert(self.blocks[k].drawable());
                lemma_block_shape_renderable(self.blocks[k], (indent + 1) as nat);
            } else {
                let i = k - n;
                let j = i + 1;
                assert(self.blocks[j].y == self.blocks[i].y + self.blocks[i].height
                    + self.distance);
                assert(self.blocks[j].valid());
            }
        }
    }

    /// Moving a chain and then drawing it gives the shapes of drawing it and
    /// then moving every coordinate.
    pub proof fn lemma_translation_commutes(self, dx: nat, dy: nat)
        requires
            self.blocks.len() >= 1,
        ensures
            self.translated(dx, dy).shape() == self.shape().translated(dx, dy),
    {
        let n = self.blocks.len() as int;
        let moved = self.translated(dx, dy);
        let drawn = self.shape()->Group_0;
        ShapeModel::lemma_translated_first(drawn, dx, dy, drawn.len());
        let left = moved.shape()->Group_0;
        let right = ShapeModel::translated_first(drawn, dx, dy, drawn.len());
        assert forall|k: int| 0 <= k < left.len() implies left[k] == right[k] by {
            if k < n {
                lemma_block_translation_commutes(self.blocks[k], dx, dy);
            }
        }
        assert(left =~= right);
    }
}

/// Moving a block and then drawing it gives the shapes of drawing it and
/// then moving every coordinate.
pub proof fn lemma_block_translation_commutes(b: BlockView, dx: nat, dy: nat)
    ensures
        b.translated(dx, dy).shape() == b.shape().translated(dx, dy),
{
    let moved = b.translated(dx, dy);
    let drawn = b.shape()->Group_0;
    ShapeModel::lemma_translated_first(drawn, dx, dy, drawn.len());
    let left = moved.shape()->Group_0;
    let right = ShapeModel::translated_first(drawn, dx, dy, drawn.len());
    assert(left.len() == right.len());
    assert forall|k: int| 0 <= k < left.len() implies left[k] == right[k] by {
        if k < b.texts.len() {
            assert(left[k] == moved.labels()[k]);
            assert(drawn[k] == b.labels()[k]);
        } else {
            assert(left[k] == moved.outline());
            assert(drawn[k] == b.outline());
        }
    }
    assert(left =~= right);
}

/// A vertical stack of blocks on one axis. It starts with one block and
/// grows at its lower end; no block ever leaves it.
pub struct BasicBlock<'a> {
    block_builder: &'a BlockBuilder,
    distance: usize,
    blocks: Vec<Block>,
}

impl<'a> View for BasicBlock<'a> {
    type V = ChainView;

    closed spec fn view(&self) -> ChainView {
        ChainView {
            builder: self.block_builder@,
            distance: self.distance as nat,
            blocks: Seq::new(self.blocks@.len(), |i: int| self.blocks@[i]@),
        }
    }
}

impl<'a> BasicBlock<'a> {
    /// A chain of one block: the block of the given kind around `content`.
    pub fn new(
        config: &'a Config,
        block_builder: &'a BlockBuilder,
        kind: BlockKind,
        content: String,
    ) -> (chain: Self)
        requires
            fits(block_builder@, kind, content@),
        ensures
            chain@.builder == block_builder@,
            chain@.distance == config@.distance(),
            chain@.blocks == seq![built(block_builder@, kind, content@)],
            chain@.valid(),
    {
        let chain = Self {
            block_builder,
            distance: config.distance(),
            blocks: vec![block_builder.build(kind, content)],
        };
        assert(chain@.blocks =~= seq![built(block_builder@, kind, content@)]);
        chain
    }

    /// `new` where the block's dimensions fit a machine word; `None` exactly
    /// where they do not.
    pub fn try_new(
        config: &'a Config,
        block_builder: &'a BlockBuilder,
        kind: BlockKind,
        content: String,
    ) -> (r: Option<Self>)
        ensures
            r is Some <==> fits(block_builder@, kind, content@),
            r matches Some(chain) ==> {
                &&& chain@.builder == block_builder@
                &&& chain@.distance == config@.distance()
                &&& chain@.blocks == seq![built(block_builder@, kind, content@)]
                &&& chain@.valid()
            },
    {
        match block_builder.measure(kind, content.as_str()) {
            Some(_) => Some(Self::new(config, block_builder, kind, content)),
            None => None,
        }
    }

    /// The top anchor of the first block.
    pub fn top_pos(&self) -> (p: (usize, usize))
        requires
            self@.valid(),
        ensures
            (p.0 as nat, p.1 as nat) == self@.blocks.first().top_anchor(),
    {
        assert(self@.blocks[0].valid());
        self.blocks[0].top_pos()
    }

    /// The bottom anchor of the last block.
    pub fn bottom_pos(&self) -> (p: (usize, usize))
        requires
            self@.valid(),
        ensures
            (p.0 as nat, p.1 as nat) == self@.bottom_anchor(),
    {
        assert(self@.blocks[self.blocks.len() - 1].valid());
        self.blocks[self.blocks.len() - 1].bottom_pos()
    }

    /// The chain as shapes: a group of every block, then of one arrow down
    /// from each block but the last.
    pub fn to_svg(&self) -> (shape: SvgShape)
        requires
            self@.valid(),
        ensures
            shape@ == self@.shape(),
    {
        let n = self.blocks.len();
        let mut group: Vec<SvgShape> = Vec::new();
        let mut i: usize = 0;
        while i < n
            invariant
                i <= n,
                n == self.blocks.len(),
                self@.valid(),
                group.len() == i,
                forall|k: int| 0 <= k < i ==> (#[trigger] group@[k])@ == self@.blocks[k].shape(),
            decreases n - i,
        {
            assert(self@.blocks[i as int].valid());
            group.push(self.blocks[i].to_svg());
            i += 1;
        }
        let mut j: usize = 0;
        while j < n - 1
            invariant
                j <= n - 1,
                n == self.blocks.len(),
                n >= 1,
                self@.valid(),
                group.len() == n + j,
                forall|k: int| 0 <= k < n ==> (#[trigger] group@[k])@ == self@.blocks[k].shape(),
                forall|k: int| n <= k < n + j ==> (#[trigger] group@[k])@ == self@.arrow(k - n),
            decreases n - 1 - j,
        {
            assert(self@.blocks[j as int].valid());
            let (x, y) = self.blocks[j].bottom_pos();
            group.push(SvgShape::DownArrow { x, y, height: self.distance });
            j += 1;
        }
        proof {
            SvgShape::lemma_models(group@, group@.len());
            assert(SvgShape::models(group@, group@.len()) =~= self@.shape()->Group_0);
        }
        SvgShape::Group(group)
    }

    /// Whether `displace` by `(dx, dy)` keeps every block within what machine
    /// words hold.
    pub fn can_displace(&self, dx: usize, dy: usize) -> (ok: bool)
        requires
            self@.valid(),
        ensures
            ok == self@.can_translate(dx as nat, dy as nat),
    {
        let mut i: usize = 0;
        while i < self.blocks.len()
            invariant
                i <= self.blocks.len(),
                self@.valid(),
                forall|k: int|
                    0 <= k < i ==> (#[trigger] self@.blocks[k]).x + self@.blocks[k].width + dx
                        <= usize::MAX && self@.blocks[k].y + self@.blocks[k].height + dy
                        <= usize::MAX,
            decreases self.blocks.len() - i,
        {
            assert(self@.blocks[i as int].valid());
            let (x, y) = self.blocks[i].pos();
            let right = x + self.blocks[i].width();
            let bottom = y + self.blocks[i].height();
            if dx > usize::MAX - right || dy > usize::MAX - bottom {
                return false;
            }
            i += 1;
        }
        true
    }

    /// Moves every block, with its text, by `(dx, dy)`.
    pub fn displace(&mut self, dx: usize, dy: usize)
        requires
            old(self)@.valid(),
            old(self)@.can_translate(dx as nat, dy as nat),
        ensures
            final(self)@ == old(self)@.translated(dx as nat, dy as nat),
            final(self)@.valid(),
    {
        let ghost before = self@;
        let mut i: usize = 0;
        while i < self.blocks.len()
            invariant
                i <= self.blocks.len(),
                self.blocks.len() == before.blocks.len(),
                self.distance == before.distance,
                self.block_builder@ == before.builder,
                before.valid(),
                before.can_translate(dx as nat, dy as nat),
                forall|k: int|
                    0 <= k < i ==> (#[trigger] self.blocks@[k])@ == before.blocks[k].translated(
                        dx as nat,
                        dy as nat,
                    ),
                forall|k: int|
                    i <= k < self.blocks.len() ==> (#[trigger] self.blocks@[k])@
                        == before.blocks[k],
            decreases self.blocks.len() - i,
        {
            assert(before.blocks[i as int].valid());
            self.blocks[i].displace(dx, dy);
            i += 1;
        }
        proof {
            assert(self@.blocks =~= before.translated(dx as nat, dy as nat).blocks);
            before.lemma_translated_valid(dx as nat, dy as nat);
        }
    }

    /// Moves every block by `(dx, dy)` if that keeps the chain within what
    /// machine words hold, and says whether it did.
    pub fn try_displace(&mut self, dx: usize, dy: usize) -> (moved: bool)
        requires
            old(self)@.valid(),
        ensures
            moved == old(self)@.can_translate(dx as nat, dy as nat),
            moved ==> final(self)@ == old(self)@.translated(dx as nat, dy as nat),
            !moved ==> final(self)@ == old(self)@,
            final(self)@.valid(),
    {
        if self.can_displace(dx, dy) {
            self.displace(dx, dy);
            true
        } else {
            false
        }
    }

    /// Whether `push` of such a block keeps all of the chain within what
    /// machine words hold.
    pub fn can_push(&self, kind: BlockKind, content: &str) -> (ok: bool)
        requires
            self@.valid(),
        ensures
            ok == (fits(self@.builder, kind, content@) && self@.can_append(
                built(self@.builder, kind, content@),
            )),
    {
        let (width, height) = match self.block_builder.measure(kind, content) {
            Some(size) => size,
            None => {
                return false;
            },
        };
        let (bb_bottom_x, bb_bottom_y) = self.bottom_pos();
        let block_top_x = width / 2;
        let (shift_chain, shift_block) = if block_top_x < bb_bottom_x {
            (0, bb_bottom_x - block_top_x)
        } else {
            (block_top_x - bb_bottom_x, 0)
        };
        let dy = match bb_bottom_y.checked_add(self.distance) {
            Some(dy) => dy,
            None => {
                return false;
            },
        };
        if shift_block > usize::MAX - width || dy > usize::MAX - height {
            return false;
        }
        self.can_displace(shift_chain, 0)
    }

    /// Builds the block of the given kind around `content` and adds it below
    /// the last block, on the chain's axis: whichever of the two is further
    /// left moves right until the anchors meet.
    pub fn push(&mut self, kind: BlockKind, content: String)
        requires
            old(self)@.valid(),
            fits(old(self)@.builder, kind, content@),
            old(self)@.can_append(built(old(self)@.builder, kind, content@)),
        ensures
            final(self)@ == old(self)@.appended(built(old(self)@.builder, kind, content@)),
            final(self)@.valid(),
            final(self)@.aligned(),
            final(self)@.spaced(),
    {
        let ghost before = self@;
        let (bb_bottom_x, bb_bottom_y) = self.bottom_pos();
        let mut block = self.block_builder.build(kind, content);
        let ghost fresh = block@;
        let (block_top_x, _) = block.top_pos();
        proof {
            assert(before.translated(0, 0).blocks =~= before.blocks) by {
                assert forall|i: int| 0 <= i < before.blocks.len() implies before.blocks[i].translated(
                    0,
                    0,
                ) == before.blocks[i] by {
                    assert(before.blocks[i].translated(0, 0).texts =~= before.blocks[i].texts);
                }
            }
            assert(fresh.translated(0, 0).texts =~= fresh.texts);
        }
        if block_top_x < bb_bottom_x {
            block.displace(bb_bottom_x - block_top_x, 0);
        } else if block_top_x > bb_bottom_x {
            self.displace(block_top_x - bb_bottom_x, 0);
        }
        let dy = bb_bottom_y + self.distance;
        block.displace(0, dy);
        proof {
            assert(block@.texts =~= fresh.translated(
                before.shift_of_block(fresh.top_anchor().0),
                dy as nat,
            ).texts);
        }
        self.blocks.push(block);
        proof {
            assert(self@.blocks =~= before.appended(fresh).blocks);
            before.lemma_appended_valid(fresh);
        }
    }

    /// `push` where all of the chain stays within what machine words hold;
    /// elsewhere the chain stays as it is. Says whether the block was added.
    pub fn try_push(&mut self, kind: BlockKind, content: String) -> (added: bool)
        requires
            old(self)@.valid(),
        ensures
            added == (fits(old(self)@.builder, kind, content@) && old(self)@.can_append(
                built(old(self)@.builder, kind, content@),
            )),
            added ==> final(self)@ == old(self)@.appended(
                built(old(self)@.builder, kind, content@),
            ),
            !added ==> final(self)@ == old(self)@,
            final(self)@.valid(),
    {
        if self.can_push(kind, content.as_str()) {
            self.push(kind, content);
            true
        } else {
            false
        }
    }
}

} // verus!
