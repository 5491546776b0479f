//! An in-memory model of a directory tree and a verified, bounded walk over
//! it: depth-limited, pruning skip-listed names, honouring the symlink
//! policy, and yielding regular files only.

use vstd::prelude::*;

use crate::path_model::{FsPath, PathView};
use crate::text::str_eq;

verus! {

broadcast use vstd::seq::axiom_seq_index_decreases, vstd::seq::axiom_seq_subrange_decreases, vstd::std_specs::vec::axiom_vec_decreases_to_view;

/// What the engine needs to know of one file.
#[derive(Debug, Clone, Copy)]
pub struct FileMeta {
    /// Size in bytes.
    pub size: u64,
    /// Modification time in seconds since the epoch; `None` when the
    /// filesystem could not report one.
    pub modified: Option<u64>,
    /// Whether metadata reads and deletion succeed for this file.
    pub accessible: bool,
}

/// One node of a directory tree, as the caller observed it on disk.
#[derive(Debug)]
pub enum FsNode {
    /// A regular file, or a symlink to a file (deleting removes the link).
    File { name: String, meta: FileMeta },
    /// A directory; `symlink` marks a symlinked directory.
    Dir { name: String, symlink: bool, children: Vec<FsNode> },
}

/// One file the walker yields: its full path and its metadata.
#[derive(Debug, Clone)]
pub struct FileEntry {
    pub path: FsPath,
    pub meta: FileMeta,
}

/// Addition on byte counters that pins at the top instead of wrapping.
pub open spec fn sat_add64(a: u64, b: u64) -> u64 {
    if a + b > u64::MAX {
        u64::MAX
    } else {
        (a + b) as u64
    }
}

/// The bytes held by every file of the tree, saturating.
pub open spec fn tree_size(n: FsNode) -> u64
    decreases n,
{
    match n {
        FsNode::File { name: _, meta } => meta.size,
        FsNode::Dir { name: _, symlink: _, children } => children_size(children@),
    }
}

/// The bytes held under a sequence of sibling nodes, saturating.
pub open spec fn children_size(ns: Seq<FsNode>) -> u64
    decreases ns,
{
    if ns.len() == 0 {
        0
    } else {
        sat_add64(children_size(ns.drop_last()), tree_size(ns.last()))
    }
}

/// The total size in bytes of every file in a directory tree.
pub fn calculate_directory_size(tree: &FsNode) -> (r: u64)
    ensures
        r == tree_size(*tree),
    decreases *tree,
{
    match tree {
        FsNode::File { name: _, meta } => meta.size,
        FsNode::Dir { name: _, symlink: _, children } => {
            let mut total: u64 = 0;
            let mut i: usize = 0;
            while i < children.len()
                invariant
                    *tree is Dir,
                    (*tree)->Dir_children == *children,
                    0 <= i <= children.len(),
                    total == children_size(children@.take(i as int)),
                decreases children.len() - i,
            {
                proof {
                    assert(children@.take(i + 1).drop_last() =~= children@.take(i as int));
                    assert(children@.take(i + 1).last() == children@[i as int]);
                    assert(decreases_to!(*tree => (*tree)->Dir_children));
                    assert(decreases_to!(*children => children@));
                    assert(decreases_to!(children@ => children@[i as int]));
                }
                let sz = calculate_directory_size(&children[i]);
                total = if total > u64::MAX - sz {
                    u64::MAX
                } else {
                    total + sz
                };
                i = i + 1;
            }
            proof {
                assert(children@.take(children.len() as int) =~= children@);
            }
            total
        },
    }
}

/// A name the walk prunes entirely.
pub open spec fn skip_name(name: Seq<char>, skip: Seq<Seq<char>>) -> bool {
    skip.contains(name)
}

/// The files that the walk yields under one node standing at `depth`, with
/// `prefix` the path components leading to it.  A skip-listed name is pruned
/// whether file or directory; an unfollowed symlinked directory is pruned; a
/// directory at the depth bound is not descended into.
pub open spec fn walk_node(
    n: FsNode,
    prefix: Seq<Seq<char>>,
    depth: int,
    max_depth: int,
    follow: bool,
    skip: Seq<Seq<char>>,
) -> Seq<(Seq<Seq<char>>, FileMeta)>
    decreases n,
{
    match n {
        FsNode::File { name, meta } => if skip_name(name@, skip) {
            Seq::empty()
        } else {
            seq![(prefix.push(name@), meta)]
        },
        FsNode::Dir { name, symlink, children } => if skip_name(name@, skip) || (symlink
            && !follow) || depth >= max_depth {
            Seq::empty()
        } else {
            walk_nodes(children@, prefix.push(name@), depth + 1, max_depth, follow, skip)
        },
    }
}

/// The files yielded under a sequence of sibling nodes, in order.
pub open spec fn walk_nodes(
    ns: Seq<FsNode>,
    prefix: Seq<Seq<char>>,
    depth: int,
    max_depth: int,
    follow: bool,
    skip: Seq<Seq<char>>,
) -> Seq<(Seq<Seq<char>>, FileMeta)>
    decreases ns,
{
    if ns.len() == 0 {
        Seq::empty()
    } else {
        walk_nodes(ns.drop_last(), prefix, depth, max_depth, follow, skip) + walk_node(
            ns.last(),
            prefix,
            depth,
            max_depth,
            follow,
            skip,
        )
    }
}

/// The views of yielded entries.
pub open spec fn entry_views(es: Seq<FileEntry>) -> Seq<(PathView, FileMeta)> {
    es.map_values(|e: FileEntry| (e.path@, e.meta))
}

/// Spec-level entries anchored at a root's absolute flag.
pub open spec fn with_root(absolute: bool, ws: Seq<(Seq<Seq<char>>, FileMeta)>) -> Seq<
    (PathView, FileMeta),
> {
    ws.map_values(|w: (Seq<Seq<char>>, FileMeta)| (PathView { absolute, comps: w.0 }, w.1))
}

/// Is `name` one of the names in `skip`?
fn name_in(skip: &Vec<String>, name: &String) -> (r: bool)
    ensures
        r == skip_name(name@, skip.deep_view()),
{
    let mut i: usize = 0;
    while i < skip.len()
        invariant
            0 <= i <= skip.len(),
            forall|j: int| 0 <= j < i ==> skip.deep_view()[j] != name@,
        decreases skip.len() - i,
    {
        if str_eq(skip[i].as_str(), name.as_str()) {
            proof {
                assert(skip.deep_view()[i as int] == name@);
            }
            return true;
        }
        i = i + 1;
    }
    proof {
        if skip.deep_view().contains(name@) {
            let j = choose|j: int|
                0 <= j < skip.deep_view().len() && skip.deep_view()[j] == name@;
        }
    }
    false
}

impl FsPath {
    /// The path one name below this one.
    pub fn child(&self, name: &String) -> (r: FsPath)
        ensures
            r@.absolute == self@.absolute,
            r@.comps == self@.comps.push(name@),
    {
        let mut r = self.duplicate();
        let ghost old_comps = r@.comps;
        r.comps.push(name.clone());
        proof {
            assert(r.comps.deep_view() =~= old_comps.push(name@));
        }
        r
    }
}

/// Append to `out` every file the bounded walk yields under `n`.
fn walk_into(
    n: &FsNode,
    prefix: &FsPath,
    depth: usize,
    max_depth: usize,
    follow: bool,
    skip: &Vec<String>,
    out: &mut Vec<FileEntry>,
)
    ensures
        entry_views(final(out)@) == entry_views(old(out)@) + with_root(
            prefix@.absolute,
            walk_node(*n, prefix@.comps, depth as int, max_depth as int, follow, skip.deep_view()),
        ),
    decreases *n,
{
    match n {
        FsNode::File { name, meta } => {
            if name_in(skip, name) {
                proof {
                    assert(entry_views(out@) =~= entry_views(out@) + with_root(
                        prefix@.absolute,
                        walk_node(
                            *n,
                            prefix@.comps,
                            depth as int,
                            max_depth as int,
                            follow,
                            skip.deep_view(),
                        ),
                    ));
                }
            } else {
                let entry = FileEntry { path: prefix.child(name), meta: *meta };
                let ghost old_views = entry_views(out@);
                out.push(entry);
                proof {
                    assert(entry_views(out@) =~= old_views.push(
                        (PathView { absolute: prefix@.absolute, comps: prefix@.comps.push(name@) },
                        *meta),
                    ));
                    assert(entry_views(out@) =~= old_views + with_root(
                        prefix@.absolute,
                        walk_node(
                            *n,
                            prefix@.comps,
                            depth as int,
                            max_depth as int,
                            follow,
                            skip.deep_view(),
                        ),
                    ));
                }
            }
        },
        FsNode::Dir { name, symlink, children } => {
            if name_in(skip, name) || (*symlink && !follow) || depth >= max_depth {
                proof {
                    assert(entry_views(out@) =~= entry_views(out@) + with_root(
                        prefix@.absolute,
                        walk_node(
                            *n,
                            prefix@.comps,
                            depth as int,
                            max_depth as int,
                            follow,
                            skip.deep_view(),
                        ),
                    ));
                }
            } else {
                let child_prefix = prefix.child(name);
                let ghost base_views = entry_views(out@);
                let mut i: usize = 0;
                while i < children.len()
                    invariant
                        *n is Dir,
                        (*n)->Dir_children == *children,
                        0 <= i <= children.len(),
                        depth < max_depth,
                        child_prefix@.absolute == prefix@.absolute,
                        child_prefix@.comps == prefix@.comps.push(name@),
                        entry_views(out@) == base_views + with_root(
                            prefix@.absolute,
                            walk_nodes(
                                children@.take(i as int),
                                child_prefix@.comps,
                                depth + 1,
                                max_depth as int,
                                follow,
                                skip.deep_view(),
                            ),
                        ),
                    decreases children.len() - i,
                {
                    proof {
                        assert(children@.take(i + 1).drop_last() =~= children@.take(i as int));
                        assert(children@.take(i + 1).last() == children@[i as int]);
                        assert(decreases_to!(*n => (*n)->Dir_children));
                        assert(decreases_to!(*children => children@));
                        assert(decreases_to!(children@ => children@[i as int]));
                    }
                    walk_into(&children[i], &child_prefix, depth + 1, max_depth, follow, skip, out);
                    proof {
                        assert(entry_views(out@) =~= base_views + with_root(
                            prefix@.absolute,
                            walk_nodes(
                                children@.take(i + 1),
                                child_prefix@.comps,
                                depth + 1,
                                max_depth as int,
                                follow,
                                skip.deep_view(),
                            ),
                        ));
                    }
                    i = i + 1;
                }
                proof {
                    assert(children@.take(children.len() as int) =~= children@);
                }
            }
        },
    }
}

/// Collect every regular file that the bounded walk finds under `root`.  The
/// root node stands at depth zero; `parent` is the path of the directory
/// holding it, so each yielded path is `parent` extended by the names down to
/// the file.
pub fn collect_files(
    root: &FsNode,
    parent: &FsPath,
    max_depth: usize,
    follow: bool,
    skip: &Vec<String>,
) -> (r: Vec<FileEntry>)
    ensures
        entry_views(r@) == with_root(
            parent@.absolute,
            walk_node(*root, parent@.comps, 0, max_depth as int, follow, skip.deep_view()),
        ),
{
    let mut out: Vec<FileEntry> = Vec::new();
    walk_into(root, parent, 0, max_depth, follow, skip, &mut out);
    proof {
        assert(entry_views(out@) =~= with_root(
            parent@.absolute,
            walk_node(*root, parent@.comps, 0, max_depth as int, follow, skip.deep_view()),
        ));
    }
    out
}

} // verus!
