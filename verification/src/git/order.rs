//! The order of change keys: the order in which a set of marked changes is
//! listed, field by field as the derived `Ord` of the key compares them,
//! paths component by component.
use super::{ChangeKey, ChangeKeyView, ChangeKind, ChangeSection, RepoId, RepoIdView};
use crate::path::{lemma_parts_order, parts_lt, path_eq, path_less};
use crate::text::{chars_lt, lemma_lex_irreflexive, lemma_lex_total, lemma_lex_transitive, lex_lt};
use vstd::prelude::*;

verus! {

// ---------------------------------------------------------------------------
// Keys
// ---------------------------------------------------------------------------

pub open spec fn section_rank(s: ChangeSection) -> int {
    match s {
        ChangeSection::Conflict => 0,
        ChangeSection::Staged => 1,
        ChangeSection::Unstaged => 2,
        ChangeSection::Untracked => 3,
        ChangeSection::Ignored => 4,
    }
}

pub open spec fn kind_rank(k: ChangeKind) -> int {
    match k {
        ChangeKind::Modified => 0,
        ChangeKind::Added => 1,
        ChangeKind::Deleted => 2,
        ChangeKind::Renamed => 3,
        ChangeKind::Copied => 4,
        ChangeKind::TypeChanged => 5,
        ChangeKind::Untracked => 6,
        ChangeKind::Ignored => 7,
        ChangeKind::Conflict => 8,
    }
}

/// Repository identities in order of root, then Git directory, then common
/// Git directory.
pub open spec fn repo_lt(a: RepoIdView, b: RepoIdView) -> bool {
    if a.root != b.root {
        parts_lt(a.root, b.root)
    } else if a.git_dir != b.git_dir {
        parts_lt(a.git_dir, b.git_dir)
    } else {
        parts_lt(a.common_git_dir, b.common_git_dir)
    }
}

/// Optional repositories: none first.
pub open spec fn opt_repo_lt(a: Option<RepoIdView>, b: Option<RepoIdView>) -> bool {
    match (a, b) {
        (None, Some(_)) => true,
        (Some(x), Some(y)) => repo_lt(x, y),
        _ => false,
    }
}

/// Optional paths: none first.
pub open spec fn opt_path_lt(a: Option<Seq<Seq<u8>>>, b: Option<Seq<Seq<u8>>>) -> bool {
    match (a, b) {
        (None, Some(_)) => true,
        (Some(x), Some(y)) => parts_lt(x, y),
        _ => false,
    }
}

/// `a` sorts before `b`: by repository, section, kind, path, original path
/// and status letters, in that order.
pub open spec fn key_lt(a: ChangeKeyView, b: ChangeKeyView) -> bool {
    if a.repo_id != b.repo_id {
        opt_repo_lt(a.repo_id, b.repo_id)
    } else if a.section != b.section {
        section_rank(a.section) < section_rank(b.section)
    } else if a.kind != b.kind {
        kind_rank(a.kind) < kind_rank(b.kind)
    } else if a.path != b.path {
        parts_lt(a.path, b.path)
    } else if a.original_path != b.original_path {
        opt_path_lt(a.original_path, b.original_path)
    } else {
        lex_lt(a.xy, b.xy)
    }
}

proof fn lemma_repo_order(a: RepoIdView, b: RepoIdView, c: RepoIdView)
    ensures
        !repo_lt(a, a),
        a != b ==> repo_lt(a, b) || repo_lt(b, a),
        !(repo_lt(a, b) && repo_lt(b, a)),
        repo_lt(a, b) && repo_lt(b, c) ==> repo_lt(a, c),
{
    lemma_parts_order(a.root, b.root, c.root);
    lemma_parts_order(a.git_dir, b.git_dir, c.git_dir);
    lemma_parts_order(a.common_git_dir, b.common_git_dir, c.common_git_dir);
    lemma_parts_order(a.root, c.root, b.root);
    lemma_parts_order(a.git_dir, c.git_dir, b.git_dir);
    lemma_parts_order(a.common_git_dir, c.common_git_dir, b.common_git_dir);
    lemma_parts_order(b.root, a.root, c.root);
    lemma_parts_order(b.git_dir, a.git_dir, c.git_dir);
    lemma_parts_order(b.common_git_dir, a.common_git_dir, c.common_git_dir);
}

proof fn lemma_opt_repo_order(a: Option<RepoIdView>, b: Option<RepoIdView>, c: Option<RepoIdView>)
    ensures
        !opt_repo_lt(a, a),
        a != b ==> opt_repo_lt(a, b) || opt_repo_lt(b, a),
        !(opt_repo_lt(a, b) && opt_repo_lt(b, a)),
        opt_repo_lt(a, b) && opt_repo_lt(b, c) ==> opt_repo_lt(a, c),
{
    match (a, b, c) {
        (Some(x), Some(y), Some(z)) => lemma_repo_order(x, y, z),
        (Some(x), Some(y), None) => lemma_repo_order(x, y, x),
        (Some(x), None, Some(z)) => lemma_repo_order(x, z, x),
        (None, Some(y), Some(z)) => lemma_repo_order(y, z, y),
        (Some(x), None, None) => lemma_repo_order(x, x, x),
        _ => {},
    }
}

proof fn lemma_opt_path_order(a: Option<Seq<Seq<u8>>>, b: Option<Seq<Seq<u8>>>, c: Option<Seq<Seq<u8>>>)
    ensures
        !opt_path_lt(a, a),
        a != b ==> opt_path_lt(a, b) || opt_path_lt(b, a),
        !(opt_path_lt(a, b) && opt_path_lt(b, a)),
        opt_path_lt(a, b) && opt_path_lt(b, c) ==> opt_path_lt(a, c),
{
    match (a, b, c) {
        (Some(x), Some(y), Some(z)) => lemma_parts_order(x, y, z),
        (Some(x), Some(y), None) => lemma_parts_order(x, y, x),
        (Some(x), None, Some(z)) => lemma_parts_order(x, z, x),
        (None, Some(y), Some(z)) => lemma_parts_order(y, z, y),
        (Some(x), None, None) => lemma_parts_order(x, x, x),
        _ => {},
    }
}

/// `key_lt` is a strict total order on change keys.
pub proof fn lemma_key_order(a: ChangeKeyView, b: ChangeKeyView, c: ChangeKeyView)
    ensures
        !key_lt(a, a),
        a != b ==> key_lt(a, b) || key_lt(b, a),
        !(key_lt(a, b) && key_lt(b, a)),
        key_lt(a, b) && key_lt(b, c) ==> key_lt(a, c),
{
    lemma_opt_repo_order(a.repo_id, b.repo_id, c.repo_id);
    lemma_opt_repo_order(a.repo_id, c.repo_id, b.repo_id);
    lemma_opt_repo_order(b.repo_id, a.repo_id, c.repo_id);
    lemma_parts_order(a.path, b.path, c.path);
    lemma_parts_order(a.path, c.path, b.path);
    lemma_parts_order(b.path, a.path, c.path);
    lemma_opt_path_order(a.original_path, b.original_path, c.original_path);
    lemma_opt_path_order(a.original_path, c.original_path, b.original_path);
    lemma_opt_path_order(b.original_path, a.original_path, c.original_path);
    lemma_lex_irreflexive(a.xy);
    lemma_lex_total(a.xy, b.xy);
    if lex_lt(a.xy, b.xy) && lex_lt(b.xy, c.xy) {
        lemma_lex_transitive(a.xy, b.xy, c.xy);
    }
    if a.repo_id == b.repo_id && a.section == b.section && a.kind == b.kind && a.path == b.path
        && a.original_path == b.original_path && a.xy == b.xy {
        assert(a == b);
    }
}

fn section_index(s: ChangeSection) -> (r: u8)
    ensures
        r == section_rank(s),
{
    match s {
        ChangeSection::Conflict => 0,
        ChangeSection::Staged => 1,
        ChangeSection::Unstaged => 2,
        ChangeSection::Untracked => 3,
        ChangeSection::Ignored => 4,
    }
}

fn kind_index(k: ChangeKind) -> (r: u8)
    ensures
        r == kind_rank(k),
{
    match k {
        ChangeKind::Modified => 0,
        ChangeKind::Added => 1,
        ChangeKind::Deleted => 2,
        ChangeKind::Renamed => 3,
        ChangeKind::Copied => 4,
        ChangeKind::TypeChanged => 5,
        ChangeKind::Untracked => 6,
        ChangeKind::Ignored => 7,
        ChangeKind::Conflict => 8,
    }
}

fn repo_less(a: &RepoId, b: &RepoId) -> (r: bool)
    ensures
        r == repo_lt(a@, b@),
{
    if !path_eq(&a.root, &b.root) {
        path_less(&a.root, &b.root)
    } else if !path_eq(&a.git_dir, &b.git_dir) {
        path_less(&a.git_dir, &b.git_dir)
    } else {
        path_less(&a.common_git_dir, &b.common_git_dir)
    }
}

impl ChangeKey {
    /// Whether this key sorts before `other`.
    pub fn less_than(&self, other: &ChangeKey) -> (r: bool)
        ensures
            r == key_lt(self@, other@),
    {
        let same_repo = match (&self.repo_id, &other.repo_id) {
            (Some(a), Some(b)) => a.equals(b),
            (None, None) => true,
            _ => false,
        };
        if !same_repo {
            return match (&self.repo_id, &other.repo_id) {
                (None, Some(_)) => true,
                (Some(a), Some(b)) => repo_less(a, b),
                _ => false,
            };
        }
        if !self.section.same(other.section) {
            return section_index(self.section) < section_index(other.section);
        }
        if !self.kind.same(other.kind) {
            return kind_index(self.kind) < kind_index(other.kind);
        }
        if !path_eq(&self.path, &other.path) {
            return path_less(&self.path, &other.path);
        }
        let same_original = match (&self.original_path, &other.original_path) {
            (Some(a), Some(b)) => path_eq(a, b),
            (None, None) => true,
            _ => false,
        };
        if !same_original {
            return match (&self.original_path, &other.original_path) {
                (None, Some(_)) => true,
                (Some(a), Some(b)) => path_less(a, b),
                _ => false,
            };
        }
        let x = crate::text::chars_of(self.xy.as_str());
        let y = crate::text::chars_of(other.xy.as_str());
        chars_lt(&x, &y)
    }
}

} // verus!
