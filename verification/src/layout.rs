//! The focus-navigation engine: a tree of columns of panels, where a panel
//! may own a nested layout. One panel is active at a time; movement wraps
//! within the current column and clamps instead of panicking when a
//! collection is empty or an index is out of range.

use vstd::prelude::*;
use vstd::arithmetic::div_mod::{
    lemma_add_mod_noop, lemma_mod_self_0, lemma_mod_twice, lemma_mod_division_less_than_divisor,
    lemma_small_mod,
};
use crate::text::{append_str_chars, append_chars, chars_to_string, dec_str, u64_to_chars};

verus! {

/// The semantic role of a panel. The engine stores the tag; the session
/// controller gives it meaning.
#[derive(PartialEq, Eq, Structural, Clone, Copy, Debug)]
pub enum BlockType {
    Profile,
    Repos,
    Search,
    Info,
    Commits,
    CommitInfo,
    SearchUser,
    SearchRepo,
    Default,
}

#[derive(PartialEq, Eq, Structural, Clone, Copy, Debug)]
pub enum BlockState {
    Default,
}

/// The role a numeric tag stands for.
pub open spec fn spec_block_type(i: int) -> BlockType {
    if i == 0 { BlockType::Profile }
    else if i == 1 { BlockType::Repos }
    else if i == 2 { BlockType::Search }
    else if i == 3 { BlockType::Info }
    else if i == 4 { BlockType::Commits }
    else if i == 5 { BlockType::CommitInfo }
    else if i == 6 { BlockType::SearchUser }
    else if i == 7 { BlockType::SearchRepo }
    else { BlockType::Default }
}

/// The numeric tag of a role, inverse of `spec_block_type` below 8.
pub open spec fn spec_block_tag(b: BlockType) -> int {
    match b {
        BlockType::Profile => 0,
        BlockType::Repos => 1,
        BlockType::Search => 2,
        BlockType::Info => 3,
        BlockType::Commits => 4,
        BlockType::CommitInfo => 5,
        BlockType::SearchUser => 6,
        BlockType::SearchRepo => 7,
        BlockType::Default => 8,
    }
}

/// Decodes a numeric tag into a panel role.
pub fn block_type(b_i: u8) -> (r: BlockType)
    ensures
        r == spec_block_type(b_i as int),
{
    match b_i {
        0 => BlockType::Profile,
        1 => BlockType::Repos,
        2 => BlockType::Search,
        3 => BlockType::Info,
        4 => BlockType::Commits,
        5 => BlockType::CommitInfo,
        6 => BlockType::SearchUser,
        7 => BlockType::SearchRepo,
        _ => BlockType::Default,
    }
}

/// Encodes a panel role as its numeric tag.
pub fn block_type_to_u8(block_type: BlockType) -> (r: u8)
    ensures
        r == spec_block_tag(block_type),
{
    match block_type {
        BlockType::Profile => 0,
        BlockType::Repos => 1,
        BlockType::Search => 2,
        BlockType::Info => 3,
        BlockType::Commits => 4,
        BlockType::CommitInfo => 5,
        BlockType::SearchUser => 6,
        BlockType::SearchRepo => 7,
        BlockType::Default => 8,
    }
}

#[derive(PartialEq, Eq, Structural, Clone, Copy, Debug)]
pub struct BlockPos {
    pub col: usize,
    pub row: usize,
}

impl BlockPos {
    pub fn new(col: usize, row: usize) -> (r: Self)
        ensures
            r.col == col,
            r.row == row,
    {
        Self { col, row }
    }

    pub fn default() -> (r: Self)
        ensures
            r.col == 0,
            r.row == 0,
    {
        Self { col: 0, row: 0 }
    }
}

/// The mathematical shape of a panel.
#[verifier::ext_equal]
pub struct BlockV {
    pub b_type: BlockType,
    pub state: BlockState,
    pub col: int,
    pub row: int,
    pub sub: Option<LayoutV>,
}

/// The mathematical shape of a layout.
#[verifier::ext_equal]
pub struct LayoutV {
    pub blocks: Seq<Seq<BlockV>>,
    pub active_col: int,
    pub active_row: int,
    pub sub_active: bool,
}

impl LayoutV {
    /// The active position indexes an existing panel.
    pub open spec fn pos_ok(self) -> bool {
        &&& 0 <= self.active_col < self.blocks.len()
        &&& 0 <= self.active_row < self.blocks[self.active_col].len()
    }

    /// The active column exists and is non-empty.
    pub open spec fn col_ok(self) -> bool {
        &&& 0 <= self.active_col < self.blocks.len()
        &&& self.blocks[self.active_col].len() > 0
    }

    /// The panel at the active position.
    pub open spec fn cur(self) -> BlockV {
        self.blocks[self.active_col][self.active_row]
    }

    /// This layout with the active panel's nested layout replaced.
    pub open spec fn with_cur_sub(self, sub: LayoutV) -> LayoutV {
        LayoutV {
            blocks: self.blocks.update(
                self.active_col,
                self.blocks[self.active_col].update(
                    self.active_row,
                    BlockV { sub: Some(sub), ..self.cur() },
                ),
            ),
            ..self
        }
    }
}

pub struct TuiBlock {
    pub b_type: BlockType,
    pub state: BlockState,
    pub pos: BlockPos,
    pub sublayout: Option<TuiLayout>,
}

pub struct TuiLayout {
    pub cols: usize,
    pub rows: usize,
    pub blocks: Vec<Vec<TuiBlock>>,
    pub active: BlockPos,
    pub sublayout_active: bool,
}

/// The shape of a panel, nested layout included.
pub open spec fn block_v(b: TuiBlock) -> BlockV
    decreases b,
{
    BlockV {
        b_type: b.b_type,
        state: b.state,
        col: b.pos.col as int,
        row: b.pos.row as int,
        sub: match b.sublayout {
            Some(l) => Some(layout_v(l)),
            None => None,
        },
    }
}

/// The shape of one column of panels.
pub open spec fn col_v(c: Vec<TuiBlock>) -> Seq<BlockV>
    decreases c,
{
    Seq::new(
        c@.len(),
        |j: int| if 0 <= j < c@.len() {
            block_v(c@[j])
        } else {
            arbitrary()
        },
    )
}

/// The shape of a layout, all panels included.
pub open spec fn layout_v(l: TuiLayout) -> LayoutV
    decreases l,
{
    LayoutV {
        blocks: Seq::new(
            l.blocks@.len(),
            |i: int| if 0 <= i < l.blocks@.len() {
                col_v(l.blocks@[i])
            } else {
                arbitrary()
            },
        ),
        active_col: l.active.col as int,
        active_row: l.active.row as int,
        sub_active: l.sublayout_active,
    }
}

impl View for TuiBlock {
    type V = BlockV;

    open spec fn view(&self) -> BlockV {
        block_v(*self)
    }
}

impl View for TuiLayout {
    type V = LayoutV;

    open spec fn view(&self) -> LayoutV {
        layout_v(*self)
    }
}

/// Advances the active panel of the innermost active layout, wrapping
/// within its column; a no-op when nothing can move.
pub open spec fn next_block_v(l: LayoutV) -> LayoutV
    decreases l,
{
    if l.sub_active {
        if l.pos_ok() && l.cur().sub is Some {
            l.with_cur_sub(next_block_v(l.cur().sub->0))
        } else {
            l
        }
    } else if l.col_ok() {
        LayoutV { active_row: (l.active_row + 1) % l.blocks[l.active_col].len() as int, ..l }
    } else {
        l
    }
}

/// Moves the active panel of the innermost active layout back by one,
/// wrapping within its column; a no-op when nothing can move.
pub open spec fn prev_block_v(l: LayoutV) -> LayoutV
    decreases l,
{
    if l.sub_active {
        if l.pos_ok() && l.cur().sub is Some {
            l.with_cur_sub(prev_block_v(l.cur().sub->0))
        } else {
            l
        }
    } else if l.col_ok() {
        let k = l.blocks[l.active_col].len() as int;
        let r = if l.active_row == 0 {
            k - 1
        } else {
            (l.active_row - 1 + k) % k
        };
        LayoutV { active_row: r, ..l }
    } else {
        l
    }
}

/// Moves to the next column at the outermost level, keeping the row in
/// range of the new column when it has panels.
pub open spec fn next_col_v(l: LayoutV) -> LayoutV {
    if l.blocks.len() > 0 {
        let c = (l.active_col + 1) % l.blocks.len() as int;
        let r = if l.blocks[c].len() > 0 {
            l.active_row % l.blocks[c].len() as int
        } else {
            l.active_row
        };
        LayoutV { active_col: c, active_row: r, ..l }
    } else {
        l
    }
}

/// Moves to the previous column at the outermost level; at column 0 this
/// is a no-op, not a wrap.
pub open spec fn prev_col_v(l: LayoutV) -> LayoutV {
    if l.active_col == 0 || l.blocks.len() == 0 {
        l
    } else {
        let c = (l.active_col - 1 + l.blocks.len() as int) % l.blocks.len() as int;
        let r = if l.blocks[c].len() > 0 {
            l.active_row % l.blocks[c].len() as int
        } else {
            l.active_row
        };
        LayoutV { active_col: c, active_row: r, ..l }
    }
}

/// The innermost active panel, following active nested layouts.
pub open spec fn active_block_v(l: LayoutV) -> Option<BlockV>
    decreases l,
{
    if l.pos_ok() {
        if l.sub_active && l.cur().sub is Some {
            active_block_v(l.cur().sub->0)
        } else {
            Some(l.cur())
        }
    } else {
        None
    }
}

/// Marks the nested layout active when the innermost active panel owns one.
pub open spec fn select_layout_v(l: LayoutV) -> LayoutV {
    match active_block_v(l) {
        Some(b) => if b.sub is Some {
            LayoutV { sub_active: true, ..l }
        } else {
            l
        },
        None => l,
    }
}

impl TuiBlock {
    pub fn new(b_type: BlockType, pos: BlockPos) -> (r: Self)
        ensures
            r@ == (BlockV {
                b_type,
                state: BlockState::Default,
                col: pos.col as int,
                row: pos.row as int,
                sub: None,
            }),
    {
        Self { b_type, state: BlockState::Default, pos, sublayout: None }
    }

    /// The panel's role tag.
    pub fn block_type(&self) -> (r: BlockType)
        ensures
            r == self@.b_type,
    {
        self.b_type
    }

    /// The panel's display state.
    pub fn block_state(&self) -> (r: BlockState)
        ensures
            r == self@.state,
    {
        self.state
    }

    /// Sets the panel's display state.
    pub fn set_state(&mut self, state: BlockState)
        ensures
            final(self)@ == (BlockV { state, ..old(self)@ }),
    {
        self.state = state;
    }
}

impl TuiLayout {
    /// An empty layout: no columns, the active position at the origin,
    /// no nested layout active.
    pub fn new() -> (r: Self)
        ensures
            r@.blocks == Seq::<Seq<BlockV>>::empty(),
            r@.active_col == 0,
            r@.active_row == 0,
            !r@.sub_active,
            r.cols == 0,
    {
        let r = Self {
            cols: 0,
            rows: 0,
            blocks: Vec::new(),
            active: BlockPos::default(),
            sublayout_active: false,
        };
        proof {
            assert(r@.blocks =~= Seq::<Seq<BlockV>>::empty());
        }
        r
    }

    /// A one-line description of the active position.
    pub fn print_status(&self) -> (r: String)
        ensures
            r@ == "Row: "@ + dec_str(self@.active_row as nat) + ", Col: "@ + dec_str(
                self@.active_col as nat,
            ),
    {
        let mut out: Vec<char> = Vec::new();
        append_str_chars(&mut out, "Row: ");
        let rowd: Vec<char> = u64_to_chars(self.active.row as u64);
        append_chars(&mut out, &rowd);
        append_str_chars(&mut out, ", Col: ");
        let cold: Vec<char> = u64_to_chars(self.active.col as u64);
        append_chars(&mut out, &cold);
        chars_to_string(&out)
    }

    /// Appends an empty column.
    pub fn add_col(&mut self)
        requires
            old(self).cols < usize::MAX,
        ensures
            final(self)@ == (LayoutV {
                blocks: old(self)@.blocks.push(Seq::<BlockV>::empty()),
                ..old(self)@
            }),
            final(self).cols == old(self).cols + 1,
    {
        self.blocks.push(Vec::new());
        self.cols = self.cols + 1;
        proof {
            assert(col_v(self.blocks@.last()) =~= Seq::<BlockV>::empty());
            assert(self@.blocks =~= old(self)@.blocks.push(Seq::<BlockV>::empty()));
            assert(self@ =~= (LayoutV {
                blocks: old(self)@.blocks.push(Seq::<BlockV>::empty()),
                ..old(self)@
            }));
        }
    }

    /// Appends a panel to column `col`; out-of-range columns are ignored.
    pub fn add_block(&mut self, block_type: BlockType, col: usize)
        ensures
            col < old(self)@.blocks.len() ==> final(self)@ == (LayoutV {
                blocks: old(self)@.blocks.update(
                    col as int,
                    old(self)@.blocks[col as int].push(
                        BlockV {
                            b_type: block_type,
                            state: BlockState::Default,
                            col: col as int,
                            row: old(self)@.blocks[col as int].len() as int,
                            sub: None,
                        },
                    ),
                ),
                ..old(self)@
            }),
            col >= old(self)@.blocks.len() ==> final(self)@ == old(self)@,
            final(self).cols == old(self).cols,
    {
        if col >= self.blocks.len() {
            return;
        }
        let row: usize = self.blocks[col].len();
        let pos = BlockPos::new(col, row);
        let block = TuiBlock::new(block_type, pos);
        let col_ref = &mut self.blocks[col];
        col_ref.push(block);
        proof {
            let bv = BlockV {
                b_type: block_type,
                state: BlockState::Default,
                col: col as int,
                row: row as int,
                sub: None,
            };
            assert(col_v(self.blocks@[col as int]) =~= old(self)@.blocks[col as int].push(bv));
            assert(self@.blocks =~= old(self)@.blocks.update(
                col as int,
                old(self)@.blocks[col as int].push(bv),
            ));
            assert(self@ =~= (LayoutV {
                blocks: old(self)@.blocks.update(
                    col as int,
                    old(self)@.blocks[col as int].push(bv),
                ),
                ..old(self)@
            }));
        }
    }

    /// Appends a panel owning the given nested layout to column `col`;
    /// out-of-range columns are ignored.
    pub fn add_layout(&mut self, block_type: BlockType, col: usize, sub: TuiLayout)
        ensures
            col < old(self)@.blocks.len() ==> final(self)@ == (LayoutV {
                blocks: old(self)@.blocks.update(
                    col as int,
                    old(self)@.blocks[col as int].push(
                        BlockV {
                            b_type: block_type,
                            state: BlockState::Default,
                            col: col as int,
                            row: old(self)@.blocks[col as int].len() as int,
                            sub: Some(sub@),
                        },
                    ),
                ),
                ..old(self)@
            }),
            col >= old(self)@.blocks.len() ==> final(self)@ == old(self)@,
            final(self).cols == old(self).cols,
    {
        if col >= self.blocks.len() {
            return;
        }
        let row: usize = self.blocks[col].len();
        let pos = BlockPos::new(col, row);
        let mut block = TuiBlock::new(block_type, pos);
        block.sublayout = Some(sub);
        let col_ref = &mut self.blocks[col];
        col_ref.push(block);
        proof {
            let bv = BlockV {
                b_type: block_type,
                state: BlockState::Default,
                col: col as int,
                row: row as int,
                sub: Some(sub@),
            };
            assert(col_v(self.blocks@[col as int]) =~= old(self)@.blocks[col as int].push(bv));
            assert(self@.blocks =~= old(self)@.blocks.update(
                col as int,
                old(self)@.blocks[col as int].push(bv),
            ));
            assert(self@ =~= (LayoutV {
                blocks: old(self)@.blocks.update(
                    col as int,
                    old(self)@.blocks[col as int].push(bv),
                ),
                ..old(self)@
            }));
        }
    }

    /// The active position at the outermost level.
    pub fn active_block_pos(&self) -> (r: &BlockPos)
        ensures
            r.col as int == self@.active_col,
            r.row as int == self@.active_row,
    {
        &self.active
    }

    /// The innermost active panel, or `None` when the active position does
    /// not index a panel.
    pub fn active_block(&self) -> (r: Option<&TuiBlock>)
        ensures
            match r {
                Some(b) => active_block_v(self@) == Some(b@),
                None => active_block_v(self@) is None,
            },
        decreases *self,
    {
        if self.active.col < self.blocks.len() {
            let col_ref = &self.blocks[self.active.col];
            if self.active.row < col_ref.len() {
                let blk = &col_ref[self.active.row];
                if self.sublayout_active {
                    match &blk.sublayout {
                        Some(sl) => sl.active_block(),
                        None => Some(blk),
                    }
                } else {
                    Some(blk)
                }
            } else {
                None
            }
        } else {
            None
        }
    }

    /// The nested layout of the panel at the outermost active position.
    pub fn active_sublayout(&self) -> (r: Option<&TuiLayout>)
        ensures
            self@.pos_ok() && self@.cur().sub is Some ==> (r is Some && r.unwrap()@
                == self@.cur().sub->0),
            !(self@.pos_ok() && self@.cur().sub is Some) ==> r is None,
    {
        if self.active.col < self.blocks.len() {
            let col_ref = &self.blocks[self.active.col];
            if self.active.row < col_ref.len() {
                match &col_ref[self.active.row].sublayout {
                    Some(sl) => Some(sl),
                    None => None,
                }
            } else {
                None
            }
        } else {
            None
        }
    }

    /// Advances the active panel of the innermost active layout.
    pub fn next_block(&mut self)
        ensures
            final(self)@ == next_block_v(old(self)@),
        decreases *old(self),
    {
        if self.sublayout_active {
            let c: usize = self.active.col;
            let r: usize = self.active.row;
            if c < self.blocks.len() {
                let col_len: usize = self.blocks[c].len();
                if r < col_len {
                    let col_ref = &mut self.blocks[c];
                    let blk = &mut col_ref[r];
                    let sub_opt = blk.sublayout.take();
                    match sub_opt {
                        Some(mut sl) => {
                            sl.next_block();
                            blk.sublayout = Some(sl);
                            proof {
                                lemma_cur_sub_update(*old(self), *self, next_block_v(
                                    old(self)@.cur().sub->0,
                                ));
                            }
                        },
                        None => {
                            blk.sublayout = None;
                            proof {
                                assert(self.blocks@[c as int]@ =~= old(self).blocks@[
                                    c as int
                                ]@);
                                lemma_view_unchanged(*old(self), *self);
                            }
                        },
                    }
                }
            }
        } else {
            if self.active.col < self.blocks.len() {
                let len: usize = self.blocks[self.active.col].len();
                if len > 0 {
                    let base: usize = self.active.row % len;
                    proof {
                        lemma_inc_mod(old(self).active.row as int, len as int);
                    }
                    self.active.row = if base + 1 == len {
                        0
                    } else {
                        base + 1
                    };
                    proof {
                        assert(self@ =~= (LayoutV {
                            active_row: self@.active_row,
                            ..old(self)@
                        }));
                    }
                }
            }
        }
    }

    /// Moves the active panel of the innermost active layout back by one.
    pub fn prev_block(&mut self)
        ensures
            final(self)@ == prev_block_v(old(self)@),
        decreases *old(self),
    {
        if self.sublayout_active {
            let c: usize = self.active.col;
            let r: usize = self.active.row;
            if c < self.blocks.len() {
                let col_len: usize = self.blocks[c].len();
                if r < col_len {
                    let col_ref = &mut self.blocks[c];
                    let blk = &mut col_ref[r];
                    let sub_opt = blk.sublayout.take();
                    match sub_opt {
                        Some(mut sl) => {
                            sl.prev_block();
                            blk.sublayout = Some(sl);
                            proof {
                                lemma_cur_sub_update(*old(self), *self, prev_block_v(
                                    old(self)@.cur().sub->0,
                                ));
                            }
                        },
                        None => {
                            blk.sublayout = None;
                            proof {
                                assert(self.blocks@[c as int]@ =~= old(self).blocks@[
                                    c as int
                                ]@);
                                lemma_view_unchanged(*old(self), *self);
                            }
                        },
                    }
                }
            }
        } else {
            if self.active.col < self.blocks.len() {
                let len: usize = self.blocks[self.active.col].len();
                if len > 0 {
                    if self.active.row == 0 {
                        self.active.row = len - 1;
                    } else {
                        proof {
                            lemma_dec_mod(old(self).active.row as int, len as int);
                        }
                        self.active.row = (self.active.row - 1) % len;
                    }
                    proof {
                        assert(self@ =~= (LayoutV {
                            active_row: self@.active_row,
                            ..old(self)@
                        }));
                    }
                }
            }
        }
    }

    /// Moves to the next column at the outermost level.
    pub fn next_col(&mut self)
        ensures
            final(self)@ == next_col_v(old(self)@),
    {
        if self.blocks.len() > 0 {
            let ncols: usize = self.blocks.len();
            let base: usize = self.active.col % ncols;
            proof {
                lemma_inc_mod(old(self).active.col as int, ncols as int);
            }
            self.active.col = if base + 1 == ncols {
                0
            } else {
                base + 1
            };
            let len: usize = self.blocks[self.active.col].len();
            if len > 0 {
                self.active.row = self.active.row % len;
            }
            proof {
                assert(self@ =~= (LayoutV {
                    active_col: self@.active_col,
                    active_row: self@.active_row,
                    ..old(self)@
                }));
            }
        }
    }

    /// Moves to the previous column at the outermost level; at column 0
    /// this is a no-op.
    pub fn prev_col(&mut self)
        ensures
            final(self)@ == prev_col_v(old(self)@),
    {
        if self.active.col == 0 || self.blocks.len() == 0 {
            return;
        }
        proof {
            lemma_dec_mod(old(self).active.col as int, self.blocks@.len() as int);
        }
        self.active.col = (self.active.col - 1) % self.blocks.len();
        let len: usize = self.blocks[self.active.col].len();
        if len > 0 {
            self.active.row = self.active.row % len;
        }
        proof {
            assert(self@ =~= (LayoutV {
                active_col: self@.active_col,
                active_row: self@.active_row,
                ..old(self)@
            }));
        }
    }

    /// Marks the nested layout active when the innermost active panel owns
    /// one.
    pub fn select_layout(&mut self)
        ensures
            final(self)@ == select_layout_v(old(self)@),
    {
        let has_sub: bool = match self.active_block() {
            Some(b) => b.sublayout.is_some(),
            None => false,
        };
        if has_sub {
            self.sublayout_active = true;
            proof {
                assert(self@ =~= (LayoutV { sub_active: true, ..old(self)@ }));
            }
        }
    }

    /// Deactivates the nested layout; reports whether one was active.
    pub fn unselect_layout(&mut self) -> (r: bool)
        ensures
            r == old(self)@.sub_active,
            final(self)@ == (LayoutV { sub_active: false, ..old(self)@ }),
    {
        let was: bool = self.sublayout_active;
        self.sublayout_active = false;
        proof {
            assert(self@ =~= (LayoutV { sub_active: false, ..old(self)@ }));
        }
        was
    }
}

/// When only the active panel's nested layout changed, the view is the old
/// view with that nested layout replaced.
proof fn lemma_cur_sub_update(pre: TuiLayout, post: TuiLayout, sub: LayoutV)
    requires
        layout_v(pre).pos_ok(),
        post.blocks@.len() == pre.blocks@.len(),
        post.blocks@ == pre.blocks@.update(
            pre.active.col as int,
            post.blocks@[pre.active.col as int],
        ),
        post.blocks@[pre.active.col as int]@ == pre.blocks@[pre.active.col as int]@.update(
            pre.active.row as int,
            post.blocks@[pre.active.col as int]@[pre.active.row as int],
        ),
        post.blocks@[pre.active.col as int]@[pre.active.row as int] == (TuiBlock {
            sublayout: post.blocks@[pre.active.col as int]@[pre.active.row as int].sublayout,
            ..pre.blocks@[pre.active.col as int]@[pre.active.row as int]
        }),
        post.blocks@[pre.active.col as int]@[pre.active.row as int].sublayout is Some,
        layout_v(post.blocks@[pre.active.col as int]@[pre.active.row as int].sublayout->0) == sub,
        post.active == pre.active,
        post.sublayout_active == pre.sublayout_active,
    ensures
        layout_v(post) == layout_v(pre).with_cur_sub(sub),
{
    let c = pre.active.col as int;
    let r = pre.active.row as int;
    let lhs = layout_v(post);
    let rhs = layout_v(pre).with_cur_sub(sub);
    assert forall|i: int| 0 <= i < lhs.blocks.len() implies lhs.blocks[i] == rhs.blocks[i] by {
        if i == c {
            assert(lhs.blocks[i] =~= rhs.blocks[i]);
        } else {
            assert(lhs.blocks[i] =~= rhs.blocks[i]);
        }
    }
    assert(lhs.blocks =~= rhs.blocks);
    assert(lhs =~= rhs);
}

/// Incrementing modulo `k`, phrased without exceeding the modulus.
proof fn lemma_inc_mod(a: int, k: int)
    requires
        k > 0,
        a >= 0,
    ensures
        (a + 1) % k == if a % k + 1 == k { 0int } else { a % k + 1 },
{
    lemma_add_mod_noop(a, 1, k);
    lemma_mod_division_less_than_divisor(a, k);
    if k == 1 {
        lemma_mod_self_0(1);
        lemma_small_mod(0, 1);
    } else {
        lemma_small_mod(1, k as nat);
        if a % k + 1 == k {
            lemma_mod_self_0(k);
        } else {
            lemma_small_mod((a % k + 1) as nat, k as nat);
        }
    }
}

/// Stepping back modulo `k` agrees with plain subtraction for positive `a`.
proof fn lemma_dec_mod(a: int, k: int)
    requires
        k > 0,
        a >= 1,
    ensures
        (a - 1 + k) % k == (a - 1) % k,
{
    lemma_add_mod_noop(a - 1, k, k);
    lemma_mod_self_0(k);
    lemma_mod_twice(a - 1, k);
}

/// The layout after `n` successive panel advances.
pub open spec fn iter_next_block(l: LayoutV, n: nat) -> LayoutV
    decreases n,
{
    if n == 0 {
        l
    } else {
        next_block_v(iter_next_block(l, (n - 1) as nat))
    }
}

/// After `i` advances the active row has moved forward by `i`, modulo the
/// column length.
proof fn lemma_iter_next_row(l: LayoutV, i: nat, k: nat)
    requires
        !l.sub_active,
        l.col_ok(),
        k == l.blocks[l.active_col].len(),
        0 <= l.active_row < k,
    ensures
        iter_next_block(l, i) == (LayoutV {
            active_row: (l.active_row + i) % k as int,
            ..l
        }),
    decreases i,
{
    if i == 0 {
        lemma_small_mod(l.active_row as nat, k);
        assert((LayoutV { active_row: l.active_row, ..l }) == l);
    } else {
        lemma_iter_next_row(l, (i - 1) as nat, k);
        let a = l.active_row + i - 1;
        lemma_add_mod_noop(a, 1, k as int);
        if k == 1 {
            lemma_mod_self_0(1);
            lemma_mod_twice(a, 1);
        } else {
            lemma_small_mod(1, k);
        }
        lemma_mod_division_less_than_divisor(a, k as int);
    }
}

/// Law: in a column of `k` panels, advancing the panel `k` times from any
/// starting panel returns to that panel.
pub proof fn lemma_next_block_cycle(l: LayoutV, k: nat)
    requires
        !l.sub_active,
        l.col_ok(),
        k == l.blocks[l.active_col].len(),
        0 <= l.active_row < k,
    ensures
        iter_next_block(l, k) == l,
{
    lemma_iter_next_row(l, k, k);
    lemma_add_mod_noop(l.active_row, k as int, k as int);
    lemma_small_mod(l.active_row as nat, k);
    lemma_mod_self_0(k as int);
    lemma_mod_twice(l.active_row, k as int);
    assert((LayoutV { active_row: l.active_row, ..l }) == l);
}

/// Law: moving to the previous column while at column 0 changes nothing.
pub proof fn lemma_prev_col_at_zero(l: LayoutV)
    requires
        l.active_col == 0,
    ensures
        prev_col_v(l) == l,
{
}

/// When the underlying data did not change, the view did not change.
proof fn lemma_view_unchanged(pre: TuiLayout, post: TuiLayout)
    requires
        post.blocks@.len() == pre.blocks@.len(),
        forall|i: int| 0 <= i < post.blocks@.len() ==> post.blocks@[i]@ == pre.blocks@[i]@,
        post.active == pre.active,
        post.sublayout_active == pre.sublayout_active,
    ensures
        layout_v(post) == layout_v(pre),
{
    assert forall|i: int| 0 <= i < layout_v(post).blocks.len() implies layout_v(post).blocks[i]
        == layout_v(pre).blocks[i] by {
        assert(col_v(post.blocks@[i]) =~= col_v(pre.blocks@[i]));
    }
    assert(layout_v(post).blocks =~= layout_v(pre).blocks);
    assert(layout_v(post) =~= layout_v(pre));
}

} // verus!
