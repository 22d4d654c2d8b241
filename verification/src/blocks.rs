//! The run command's editor-side decisions: which code range a run covers
//! when the selection is empty, whether the selection's language allows a
//! run at all, and which existing output blocks an incoming run displaces.
//! Buffer positions count characters.

use vstd::prelude::*;

verus! {

use vstd::string::StrSliceExecFns;
use crate::text::{str_eq, LineRange};

/// Position `i` begins a line: the text's start, or right after a newline.
pub open spec fn is_line_start(s: Seq<char>, i: int) -> bool {
    i == 0 || s[i - 1] == '\n'
}

/// Position `j` ends a line: the text's end, or a newline stands there.
pub open spec fn is_line_end(s: Seq<char>, j: int) -> bool {
    j == s.len() || s[j] == '\n'
}

/// The code range a run covers: the selection itself when one is made, and
/// otherwise the whole line around the cursor — from the nearest line
/// start at or before it to the nearest line end at or after it.
pub fn code_range(text: &str, sel_start: usize, sel_end: usize) -> (r: LineRange)
    requires
        sel_start <= sel_end,
        sel_end <= text@.len(),
    ensures
        sel_start != sel_end ==> r.start == sel_start && r.end == sel_end,
        sel_start == sel_end ==> {
            &&& r.start <= sel_start <= r.end <= text@.len()
            &&& is_line_start(text@, r.start as int)
            &&& is_line_end(text@, r.end as int)
            &&& forall|k: int| r.start <= k < sel_start ==> text@[k] != '\n'
            &&& forall|k: int| sel_start <= k < r.end ==> text@[k] != '\n'
        },
{
    if sel_start != sel_end {
        return LineRange { start: sel_start, end: sel_end };
    }
    let cursor = sel_start;
    let mut start: usize = cursor;
    while start > 0 && text.get_char(start - 1) != '\n'
        invariant
            start <= cursor,
            cursor <= text@.len(),
            forall|k: int| start <= k < cursor ==> text@[k] != '\n',
        decreases start,
    {
        start = start - 1;
    }
    let n = text.unicode_len();
    let mut end: usize = cursor;
    while end < n && text.get_char(end) != '\n'
        invariant
            cursor <= end <= n,
            n == text@.len(),
            forall|k: int| cursor <= k < end ==> text@[k] != '\n',
        decreases n - end,
    {
        end = end + 1;
    }
    LineRange { start, end }
}

/// Whether a run may proceed for the languages seen at the two ends of the
/// selection: only when both ends agree on one language, and that language
/// is not markdown.
pub fn run_language(start_language: Option<&str>, end_language: Option<&str>) -> (r: Option<
    String,
>)
    ensures
        match (start_language, end_language) {
            (Some(a), Some(b)) => {
                if a@ == b@ && a@ != "markdown"@ {
                    r matches Some(l) && l@ == a@
                } else {
                    r is None
                }
            },
            _ => r is None,
        },
{
    match (start_language, end_language) {
        (Some(a), Some(b)) => {
            if str_eq(a, b) && !str_eq(a, "markdown") {
                Some(a.to_owned())
            } else {
                None
            }
        },
        _ => None,
    }
}

/// One output block shown under a run: the code range it belongs to and
/// the editor's handle for it.
#[derive(Clone, Copy, PartialEq, Eq, Structural, Debug)]
pub struct EditorRuntimeBlock {
    pub code_start: usize,
    pub code_end: usize,
    pub block_id: u64,
}

/// Two half-open ranges share at least one position.
pub open spec fn block_overlaps(b: EditorRuntimeBlock, start: int, end: int) -> bool {
    b.code_start < end && start < b.code_end
}

/// The handles of the blocks overlapping `[start, end)`, in block order.
pub open spec fn overlapping_ids(
    blocks: Seq<EditorRuntimeBlock>,
    start: int,
    end: int,
) -> Seq<u64>
    decreases blocks.len(),
{
    if blocks.len() == 0 {
        Seq::empty()
    } else {
        let rest = overlapping_ids(blocks.drop_last(), start, end);
        if block_overlaps(blocks.last(), start, end) {
            rest.push(blocks.last().block_id)
        } else {
            rest
        }
    }
}

/// The output blocks this manager keeps for one editor.
pub struct EditorRuntimeState {
    pub blocks: Vec<EditorRuntimeBlock>,
}

impl EditorRuntimeState {
    /// No blocks yet.
    pub fn new() -> (r: EditorRuntimeState)
        ensures
            r.blocks@ =~= Seq::<EditorRuntimeBlock>::empty(),
    {
        EditorRuntimeState { blocks: Vec::new() }
    }

    /// Records the block created for a fresh run.
    pub fn record_block(&mut self, block: EditorRuntimeBlock)
        ensures
            final(self).blocks@ == old(self).blocks@.push(block),
    {
        self.blocks.push(block);
    }

    /// The handles of every recorded block that overlaps an incoming run's
    /// code range: those blocks are displaced by the new output area.
    pub fn blocks_to_remove(&self, start: usize, end: usize) -> (r: Vec<u64>)
        ensures
            r@ == overlapping_ids(self.blocks@, start as int, end as int),
    {
        let mut r: Vec<u64> = Vec::new();
        let mut i: usize = 0;
        while i < self.blocks.len()
            invariant
                i <= self.blocks.len(),
                r@ == overlapping_ids(self.blocks@.take(i as int), start as int, end as int),
            decreases self.blocks.len() - i,
        {
            proof {
                assert(self.blocks@.take(i as int + 1).drop_last() =~= self.blocks@.take(i as int));
                assert(self.blocks@.take(i as int + 1).last() == self.blocks@[i as int]);
            }
            let b = &self.blocks[i];
            if b.code_start < end && start < b.code_end {
                r.push(b.block_id);
            }
            i += 1;
        }
        proof {
            assert(self.blocks@.take(self.blocks@.len() as int) =~= self.blocks@);
        }
        r
    }
}

} // verus!
