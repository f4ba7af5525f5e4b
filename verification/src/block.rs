use vstd::prelude::*;
use vstd::slice::slice_subrange;
use vstd::string::StrSliceExecFns;

use crate::text::{chars_of, has_prefix, span_has_prefix, span_to_string, Span};

verus! {

#[derive(Debug, Clone, Copy, PartialEq, Eq, Structural)]
pub enum BlockParseError {
    /// The first line is no `BEGIN:` line.
    BlockNotStartingWithBEGIN,
}

/// A named block of a calendar text: the lines that stand directly in it, and the blocks
/// that it holds.
#[derive(Debug, Default)]
pub struct Block {
    pub name: String,
    pub inner_lines: Vec<String>,
    pub inner_blocks: Vec<Block>,
}

pub struct BlockView {
    pub name: Seq<char>,
    pub inner_lines: Seq<Seq<char>>,
    pub inner_blocks: Seq<BlockView>,
}

/// The texts of some lines.
pub open spec fn texts(lines: Seq<String>) -> Seq<Seq<char>> {
    Seq::new(lines.len(), |i: int| lines[i]@)
}

/// What a block holds, and what the blocks in it hold.
pub open spec fn block_view(block: &Block) -> BlockView
    decreases block,
{
    BlockView {
        name: block.name@,
        inner_lines: texts(block.inner_lines@),
        inner_blocks: Seq::new(
            block.inner_blocks@.len(),
            |i: int|
                if 0 <= i < block.inner_blocks@.len() {
                    block_view(&block.inner_blocks@[i])
                } else {
                    arbitrary()
                },
        ),
    }
}

impl View for Block {
    type V = BlockView;

    open spec fn view(&self) -> BlockView {
        block_view(self)
    }
}

/// The views of some blocks.
pub open spec fn views(blocks: Seq<Block>) -> Seq<BlockView> {
    Seq::new(blocks.len(), |i: int| blocks[i]@)
}

/// What is known of a block after some of its lines: how deep the lines stand in nested
/// blocks, where the nested block began that is open, and what was gathered.
pub struct BlockScan {
    pub depth: int,
    pub start: Option<int>,
    pub inner_lines: Seq<Seq<char>>,
    pub inner_blocks: Seq<BlockView>,
    pub failed: bool,
}

/// What is known of the block after its first `k` lines.
///
/// The first line opens the block, at depth 1. A `BEGIN:` line goes one deeper, and marks
/// the start of a nested block where none is marked. An `END:` line comes one back; where
/// that leads to depth 1, the lines from the mark to this one are a nested block. Any other
/// line at depth 1 is a line of the block itself.
pub open spec fn scan_block(lines: Seq<Seq<char>>, k: int) -> BlockScan
    decreases lines.len(), k,
{
    if k <= 1 || k > lines.len() {
        BlockScan {
            depth: 1,
            start: None,
            inner_lines: Seq::empty(),
            inner_blocks: Seq::empty(),
            failed: false,
        }
    } else {
        let before = scan_block(lines, k - 1);
        let line = lines[k - 1];
        if before.failed {
            before
        } else if has_prefix(line, "BEGIN:"@) {
            BlockScan {
                depth: before.depth + 1,
                start: if before.start is None {
                    Some(k - 1)
                } else {
                    before.start
                },
                ..before
            }
        } else if has_prefix(line, "END:"@) {
            if before.depth - 1 == 1 {
                match before.start {
                    Some(start) if 1 <= start < k => match parse_block(lines.subrange(start, k)) {
                        Ok(block) => BlockScan {
                            depth: 1,
                            start: None,
                            inner_blocks: before.inner_blocks.push(block),
                            ..before
                        },
                        Err(_) => BlockScan { failed: true, ..before },
                    },
                    _ => BlockScan { failed: true, ..before },
                }
            } else {
                BlockScan { depth: before.depth - 1, ..before }
            }
        } else if before.depth == 1 {
            BlockScan { inner_lines: before.inner_lines.push(line), ..before }
        } else {
            before
        }
    }
}

/// The block that some lines make: its name is what follows `BEGIN:` in the first line.
pub open spec fn parse_block(lines: Seq<Seq<char>>) -> Result<BlockView, BlockParseError>
    decreases lines.len(), lines.len() + 1,
{
    if lines.len() == 0 || !has_prefix(lines[0], "BEGIN:"@) {
        Err(BlockParseError::BlockNotStartingWithBEGIN)
    } else {
        let scan = scan_block(lines, lines.len() as int);
        if scan.failed {
            Err(BlockParseError::BlockNotStartingWithBEGIN)
        } else {
            Ok(
                BlockView {
                    name: lines[0].subrange("BEGIN:"@.len() as int, lines[0].len() as int),
                    inner_lines: scan.inner_lines,
                    inner_blocks: scan.inner_blocks,
                },
            )
        }
    }
}

pub open spec fn block_result_view(r: Result<Block, BlockParseError>) -> Result<
    BlockView,
    BlockParseError,
> {
    match r {
        Ok(block) => Ok(block@),
        Err(e) => Err(e),
    }
}

/// Whether a line begins with a word.
pub fn line_has_prefix(line: &str, prefix: &str) -> (r: bool)
    ensures
        r == has_prefix(line@, prefix@),
{
    let chars = chars_of(line);
    let whole = Span { start: 0, end: chars.len() };
    assert(whole.of(chars@) =~= line@);
    span_has_prefix(&chars, whole, prefix)
}

impl Block {
    /// Builds a block from its lines, the first of which is its `BEGIN:` line.
    ///
    /// The nested blocks are built in the same way from their own lines. What follows the
    /// `END:` line that closes the block is passed over.
    pub fn try_from(lines: &[String]) -> (r: Result<Block, BlockParseError>)
        ensures
            block_result_view(r) == parse_block(texts(lines@)),
        decreases lines@.len(),
    {
        let ghost all = texts(lines@);
        if lines.len() == 0 {
            return Err(BlockParseError::BlockNotStartingWithBEGIN);
        }
        assert(all[0] == lines@[0]@);
        if !line_has_prefix(lines[0].as_str(), "BEGIN:") {
            return Err(BlockParseError::BlockNotStartingWithBEGIN);
        }
        let first = lines[0].as_str();
        let first_len = first.unicode_len();
        let name = span_to_string(first, Span { start: "BEGIN:".unicode_len(), end: first_len });

        let mut depth: usize = 1;
        let mut position: usize = 1;
        let mut inner_block_start: Option<usize> = None;
        let mut inner_lines: Vec<String> = Vec::new();
        let mut inner_blocks: Vec<Block> = Vec::new();
        let mut below: usize = 0;

        while position < lines.len()
            invariant
                all == texts(lines@),
                1 <= position <= lines@.len(),
                !scan_block(all, position as int).failed,
                scan_block(all, position as int).depth == depth - below,
                depth == 0 || below == 0,
                depth + below <= position,
                scan_block(all, position as int).start == match inner_block_start {
                    Some(start) => Some(start as int),
                    None => None,
                },
                scan_block(all, position as int).inner_lines == texts(inner_lines@),
                scan_block(all, position as int).inner_blocks == views(inner_blocks@),
                inner_block_start matches Some(start) ==> 1 <= start < position,
                depth >= 2 ==> inner_block_start is Some,
            decreases lines@.len() - position,
        {
            let line = lines[position].as_str();
            assert(all[position as int] == line@);
            let ghost before = scan_block(all, position as int);
            position += 1;
            if line_has_prefix(line, "BEGIN:") {
                if inner_block_start.is_none() {
                    inner_block_start = Some(position - 1);
                }
                if below > 0 {
                    below -= 1;
                } else {
                    depth += 1;
                }
            } else if line_has_prefix(line, "END:") {
                if depth == 0 {
                    below += 1;
                } else {
                    depth -= 1;
                    if depth == 1 {
                        let start = inner_block_start.unwrap();
                        let inner = slice_subrange(lines, start, position);
                        assert(texts(inner@) =~= all.subrange(start as int, position as int));
                        match Block::try_from(inner) {
                            Ok(block) => {
                                proof {
                                    assert(views(inner_blocks@.push(block)) =~= views(
                                        inner_blocks@,
                                    ).push(block@));
                                }
                                inner_blocks.push(block);
                                inner_block_start = None;
                            },
                            Err(e) => {
                                proof {
                                    lemma_scan_block_failure_stays(
                                        all,
                                        position as int,
                                        all.len() as int,
                                    );
                                }
                                return Err(e);
                            },
                        }
                    }
                }
            } else if depth == 1 && below == 0 {
                proof {
                    assert(texts(inner_lines@.push(lines@[position - 1])) =~= texts(
                        inner_lines@,
                    ).push(line@));
                }
                inner_lines.push(lines[position - 1].clone());
            }
        }
        let block = Block { name, inner_lines, inner_blocks };
        proof {
            assert(block@.inner_blocks =~= views(block.inner_blocks@));
        }
        Ok(block)
    }

    pub fn name(&self) -> (r: &str)
        ensures
            r@ == self.name@,
    {
        self.name.as_str()
    }

    /// A copy of the block, with copies of all that it holds.
    pub fn duplicate(&self) -> (r: Block)
        ensures
            r@ == self@,
        decreases self,
    {
        let mut inner_lines: Vec<String> = Vec::new();
        let mut i: usize = 0;
        while i < self.inner_lines.len()
            invariant
                i <= self.inner_lines@.len(),
                inner_lines@.len() == i,
                forall|j: int| 0 <= j < i ==> (#[trigger] inner_lines@[j])@ == self.inner_lines@[j]@,
            decreases self.inner_lines@.len() - i,
        {
            inner_lines.push(self.inner_lines[i].clone());
            i += 1;
        }
        assert(texts(inner_lines@) =~= texts(self.inner_lines@));
        let mut inner_blocks: Vec<Block> = Vec::new();
        let mut k: usize = 0;
        while k < self.inner_blocks.len()
            invariant
                k <= self.inner_blocks@.len(),
                inner_blocks@.len() == k,
                forall|j: int| 0 <= j < k ==> (#[trigger] inner_blocks@[j])@ == self.inner_blocks@[j]@,
            decreases self.inner_blocks@.len() - k,
        {
            let copy = self.inner_blocks[k].duplicate();
            inner_blocks.push(copy);
            k += 1;
        }
        let r = Block { name: self.name.clone(), inner_lines, inner_blocks };
        assert(r@.inner_blocks.len() == self@.inner_blocks.len());
        assert forall|j: int| 0 <= j < r@.inner_blocks.len() implies r@.inner_blocks[j]
            == self@.inner_blocks[j] by {
            assert(r.inner_blocks@[j]@ == self.inner_blocks@[j]@);
        }
        assert(r@.inner_blocks =~= self@.inner_blocks);
        r
    }
}

impl Clone for Block {
    fn clone(&self) -> (r: Block)
        ensures
            r@ == self@,
    {
        self.duplicate()
    }
}

/// Once a nested block has failed, the block has failed.
pub proof fn lemma_scan_block_failure_stays(lines: Seq<Seq<char>>, k: int, n: int)
    requires
        1 <= k <= n <= lines.len(),
        scan_block(lines, k).failed,
    ensures
        scan_block(lines, n).failed,
    decreases n - k,
{
    if k < n {
        lemma_scan_block_failure_stays(lines, k, n - 1);
    }
}

} // verus!
