//! The rows of the left rail: lists drawn in groups, each group under a
//! header row, and the mapping between list positions and drawn rows.
use crate::git::order::section_rank;
use crate::git::ChangeSection;
use vstd::prelude::*;

verus! {

// ---------------------------------------------------------------------------
// Grouped lists
// ---------------------------------------------------------------------------

/// Item `j` opens a group: it is the first item or its group differs from
/// the previous item's.
pub open spec fn group_start(keys: Seq<int>, j: int) -> bool {
    j == 0 || keys[j] != keys[j - 1]
}

/// The number of header rows drawn before item `n` (the groups opened by
/// items `0..n`).
pub open spec fn headers_before(keys: Seq<int>, n: int) -> int
    decreases n,
{
    if n <= 0 {
        0
    } else {
        headers_before(keys, n - 1) + if group_start(keys, n - 1) {
            1int
        } else {
            0int
        }
    }
}

/// The row at which item `i` is drawn.
pub open spec fn row_of(keys: Seq<int>, i: int) -> int {
    i + headers_before(keys, i + 1)
}

/// The item drawn at `row`, if `row` holds an item rather than a header.
pub open spec fn item_at_row(keys: Seq<int>, row: int) -> Option<int> {
    if exists|i: int| 0 <= i < keys.len() && row_of(keys, i) == row {
        Some(choose|i: int| 0 <= i < keys.len() && row_of(keys, i) == row)
    } else {
        None
    }
}

proof fn lemma_headers_grow(keys: Seq<int>, a: int, b: int)
    requires
        0 <= a <= b,
    ensures
        headers_before(keys, a) <= headers_before(keys, b),
        headers_before(keys, b) - headers_before(keys, a) <= b - a,
    decreases b - a,
{
    if a < b {
        lemma_headers_grow(keys, a, b - 1);
    }
}

/// Items are drawn in order, each on a row of its own.
pub proof fn lemma_rows_increase(keys: Seq<int>, i: int, j: int)
    requires
        0 <= i < j,
    ensures
        row_of(keys, i) < row_of(keys, j),
{
    lemma_headers_grow(keys, i + 1, j + 1);
}

/// Selecting the item drawn at the row where item `i` is drawn selects `i`
/// again.
pub proof fn lemma_row_round_trip(keys: Seq<int>, i: int)
    requires
        0 <= i < keys.len(),
    ensures
        item_at_row(keys, row_of(keys, i)) == Some(i),
{
    let row = row_of(keys, i);
    assert(exists|k: int| 0 <= k < keys.len() && row_of(keys, k) == row);
    let c = choose|k: int| 0 <= k < keys.len() && row_of(keys, k) == row;
    if c < i {
        lemma_rows_increase(keys, c, i);
    } else if c > i {
        lemma_rows_increase(keys, i, c);
    }
}

/// The first row of the list is a header whenever the list is not empty.
pub proof fn lemma_first_row_is_header(keys: Seq<int>)
    ensures
        item_at_row(keys, 0) is None,
{
    if exists|i: int| 0 <= i < keys.len() && row_of(keys, i) == 0 {
        let i = choose|i: int| 0 <= i < keys.len() && row_of(keys, i) == 0;
        lemma_headers_grow(keys, 1, i + 1);
        assert(headers_before(keys, 0) == 0);
        assert(headers_before(keys, 1) == 1);
    }
}

/// Row of item `index` (or `None` when there is no such item), computed
/// along the list.
pub fn row_of_index(keys: &Vec<u8>, index: usize) -> (r: Option<usize>)
    requires
        keys.len() < usize::MAX / 2,
    ensures
        index < keys.len() ==> crate::text::opt_index(r) == Some(row_of(ranks(keys@), index as int)),
        index >= keys.len() ==> r is None,
        r matches Some(v) ==> v <= 2 * index + 1,
{
    let ghost ks = ranks(keys@);
    let mut visual: usize = 0;
    let mut i: usize = 0;
    while i < keys.len()
        invariant
            keys.len() < usize::MAX / 2,
            ks == ranks(keys@),
            i <= keys.len(),
            i <= index,
            visual == i + headers_before(ks, i as int),
            headers_before(ks, i as int) <= i,
        decreases keys.len() - i,
    {
        if i == 0 || keys[i] != keys[i - 1] {
            visual += 1;
        }
        proof {
            lemma_headers_grow(ks, i as int, i + 1);
        }
        if i == index {
            return Some(visual);
        }
        visual += 1;
        i += 1;
    }
    None
}

/// The ranks of group keys as integers.
pub open spec fn ranks(v: Seq<u8>) -> Seq<int> {
    v.map_values(|b: u8| b as int)
}

/// The item drawn at `row`, computed along the list.
pub fn index_at_row(keys: &Vec<u8>, row: usize) -> (r: Option<usize>)
    requires
        keys.len() < usize::MAX / 2,
    ensures
        crate::text::opt_index(r) == item_at_row(ranks(keys@), row as int),
{
    let ghost ks = ranks(keys@);
    let mut visual: usize = 0;
    let mut i: usize = 0;
    while i < keys.len()
        invariant
            keys.len() < usize::MAX / 2,
            ks == ranks(keys@),
            i <= keys.len(),
            visual == i + headers_before(ks, i as int),
            headers_before(ks, i as int) <= i,
            forall|k: int| 0 <= k < i ==> row_of(ks, k) < visual,
            visual <= row,
        decreases keys.len() - i,
    {
        proof {
            lemma_headers_grow(ks, i as int, i + 1);
        }
        if i == 0 || keys[i] != keys[i - 1] {
            if visual == row {
                proof {
                    assert forall|k: int| 0 <= k < ks.len() implies row_of(ks, k) != row by {
                        if k > i {
                            lemma_rows_increase(ks, i as int, k);
                        }
                    }
                }
                return None;
            }
            visual += 1;
        }
        if visual == row {
            proof {
                lemma_row_round_trip(ks, i as int);
            }
            return Some(i);
        }
        visual += 1;
        i += 1;
    }
    proof {
        assert forall|k: int| 0 <= k < ks.len() implies row_of(ks, k) != row by {}
    }
    None
}

// ---------------------------------------------------------------------------
// The Repos panel: work trees, then submodules
// ---------------------------------------------------------------------------

/// The Repos panel item drawn at `row`: work trees under a header, then
/// submodules under a header; indexes count work trees first.
pub open spec fn repo_item_at_row(worktrees: int, submodules: int, row: int) -> Option<int> {
    let after = if worktrees > 0 {
        row - worktrees - 1
    } else {
        row
    };
    if worktrees > 0 && row == 0 {
        None
    } else if worktrees > 0 && row <= worktrees {
        Some(row - 1)
    } else if submodules > 0 && after == 0 {
        None
    } else if submodules > 0 && 0 < after <= submodules {
        Some(worktrees + after - 1)
    } else {
        None
    }
}

/// The row of the Repos panel item `selected`.
pub open spec fn repo_row_of(worktrees: int, submodules: int, selected: int) -> Option<int> {
    if worktrees > 0 && selected < worktrees {
        Some(1 + selected)
    } else {
        let before = if worktrees > 0 {
            1 + worktrees
        } else {
            0
        };
        if submodules > 0 && selected >= worktrees && selected - worktrees < submodules {
            Some(before + 1 + (selected - worktrees))
        } else {
            None
        }
    }
}

/// A drawn Repos item maps back to itself.
pub proof fn lemma_repo_round_trip(worktrees: int, submodules: int, selected: int)
    requires
        worktrees >= 0,
        submodules >= 0,
        0 <= selected < worktrees + submodules,
    ensures
        repo_row_of(worktrees, submodules, selected) matches Some(row) && repo_item_at_row(
            worktrees,
            submodules,
            row,
        ) == Some(selected),
{
}

/// The Repos panel item drawn at `row`.
pub fn repo_index_at_row(worktrees: usize, submodules: usize, row: usize) -> (r: Option<usize>)
    requires
        worktrees + submodules < usize::MAX,
    ensures
        crate::text::opt_index(r) == repo_item_at_row(worktrees as int, submodules as int, row as int),
{
    let mut visual: usize = 0;
    if worktrees > 0 {
        if row == 0 {
            return None;
        }
        if row <= worktrees {
            return Some(row - 1);
        }
        visual = worktrees + 1;
    }
    if submodules > 0 {
        if row == visual {
            return None;
        }
        if row > visual && row - visual <= submodules {
            return Some(worktrees + (row - visual) - 1);
        }
    }
    None
}

/// The row of the Repos panel item `selected`.
pub fn repo_row_of_index(worktrees: usize, submodules: usize, selected: usize) -> (r: Option<usize>)
    requires
        worktrees + submodules + 2 < usize::MAX,
    ensures
        crate::text::opt_index(r) == repo_row_of(worktrees as int, submodules as int, selected as int),
{
    if worktrees > 0 && selected < worktrees {
        return Some(1 + selected);
    }
    let before = if worktrees > 0 {
        1 + worktrees
    } else {
        0
    };
    if submodules > 0 && selected >= worktrees && selected - worktrees < submodules {
        Some(before + 1 + (selected - worktrees))
    } else {
        None
    }
}

/// The group key of a change: its section.
pub fn section_key(s: ChangeSection) -> (r: u8)
    ensures
        r == section_rank(s),
{
    match s {
        ChangeSection::Conflict => 0,
        ChangeSection::Staged => 1,
        ChangeSection::Unstaged => 2,
        ChangeSection::Untracked => 3,
        ChangeSection::Ignored => 4,
    }
}

/// The first visible row when `viewport_height` rows are shown and the
/// selection is drawn at `selected_row`: the top, unless the selection would
/// fall below the last visible row.
pub open spec fn viewport_offset(selected_row: Option<int>, viewport_height: int) -> int {
    match selected_row {
        None => 0,
        Some(r) => if viewport_height == 0 {
            0
        } else if r > viewport_height - 1 {
            r - (viewport_height - 1)
        } else {
            0
        },
    }
}

pub fn rail_viewport_offset(selected_row: Option<usize>, viewport_height: usize) -> (r: usize)
    ensures
        r == viewport_offset(crate::text::opt_index(selected_row), viewport_height as int),
        selected_row matches Some(v) ==> r <= v,
        selected_row is None ==> r == 0,
{
    match selected_row {
        None => 0,
        Some(row) => {
            if viewport_height == 0 {
                0
            } else if row > viewport_height - 1 {
                row - (viewport_height - 1)
            } else {
                0
            }
        },
    }
}

} // verus!
