//! Rendering a directory-structure listing from a list of file paths: the
//! paths are folded into a tree whose siblings are ordered by name, and the
//! tree is drawn with box-drawing connectors.

use vstd::prelude::*;
use crate::paths::{components_of, path_components, views_of};
use crate::text::{lex_lt, str_eq, str_lt};

verus! {

broadcast use vstd::seq::axiom_seq_index_decreases, vstd::seq::axiom_seq_subrange_decreases;

/// A node of the rendered tree, as the specification sees it: a file, or a
/// directory holding named children in order.
pub enum GTree {
    File,
    Dir(Seq<(Seq<char>, GTree)>),
}

/// A node of the directory tree: a file, or a directory with its children
/// ordered by name.
pub enum TreeNode {
    File,
    Directory(Vec<(String, TreeNode)>),
}

/// The mathematical content of a child list.
pub open spec fn children_view(s: Seq<(String, TreeNode)>) -> Seq<(Seq<char>, GTree)>
    decreases s,
{
    Seq::new(
        s.len(),
        |i: int|
            if 0 <= i < s.len() {
                (s[i].0@, tree_view(s[i].1))
            } else {
                (Seq::empty(), GTree::File)
            },
    )
}

/// The mathematical content of a tree node.
pub open spec fn tree_view(t: TreeNode) -> GTree
    decreases t,
{
    match t {
        TreeNode::File => GTree::File,
        TreeNode::Directory(ch) => GTree::Dir(children_view(ch@)),
    }
}

/// Insert one path, given as its component list, into an ordered child
/// list.  The final component becomes a file entry, replacing any entry of
/// that name; earlier components descend into directory entries, created at
/// their ordered position when missing.  A file entry of the same name
/// blocks a descent, and the path is dropped.
pub open spec fn insert_comps(
    children: Seq<(Seq<char>, GTree)>,
    comps: Seq<Seq<char>>,
) -> Seq<(Seq<char>, GTree)>
    decreases comps.len(), children.len(),
{
    if comps.len() == 0 {
        children
    } else {
        let name = comps[0];
        if children.len() == 0 {
            if comps.len() == 1 {
                seq![(name, GTree::File)]
            } else {
                seq![(name, GTree::Dir(insert_comps(Seq::empty(), comps.skip(1))))]
            }
        } else if children[0].0 == name {
            if comps.len() == 1 {
                seq![(name, GTree::File)] + children.drop_first()
            } else {
                match children[0].1 {
                    GTree::Dir(sub) => seq![(name, GTree::Dir(insert_comps(sub, comps.skip(1))))]
                        + children.drop_first(),
                    GTree::File => children,
                }
            }
        } else if lex_lt(name, children[0].0) {
            if comps.len() == 1 {
                seq![(name, GTree::File)] + children
            } else {
                seq![(name, GTree::Dir(insert_comps(Seq::empty(), comps.skip(1))))] + children
            }
        } else {
            seq![children[0]] + insert_comps(children.drop_first(), comps)
        }
    }
}

/// The child list built from a list of paths, inserted in order.
pub open spec fn build_tree(paths: Seq<Seq<char>>) -> Seq<(Seq<char>, GTree)>
    decreases paths.len(),
{
    if paths.len() == 0 {
        Seq::empty()
    } else {
        insert_comps(build_tree(paths.drop_last()), components_of(paths.last()))
    }
}

/// The rendered lines of a child list under the given line prefix: each
/// child yields one line — prefix, connector, name — and a directory's own
/// children follow at once under a deepened prefix.  The last sibling gets
/// the closing connector and an all-blank prefix extension.
pub open spec fn render_children(children: Seq<(Seq<char>, GTree)>, prefix: Seq<char>) -> Seq<
    Seq<char>,
>
    decreases children,
{
    if children.len() == 0 {
        Seq::empty()
    } else {
        let name = children[0].0;
        let is_last = children.len() == 1;
        let connector = if is_last {
            "└── "@
        } else {
            "├── "@
        };
        let deeper = if is_last {
            "    "@
        } else {
            "│   "@
        };
        let line = prefix + connector + name;
        let below = match children[0].1 {
            GTree::File => Seq::<Seq<char>>::empty(),
            GTree::Dir(sub) => render_children(sub, prefix + deeper),
        };
        seq![line] + below + render_children(children.drop_first(), prefix)
    }
}

/// The whole structure listing for a list of paths.
pub open spec fn structure_spec(paths: Seq<Seq<char>>) -> Seq<Seq<char>> {
    render_children(build_tree(paths), Seq::empty())
}

/// Insert the components of one path, from `index` on, into an ordered
/// child list.
pub fn add_components_to_tree(
    children: Vec<(String, TreeNode)>,
    components: &Vec<&str>,
    index: usize,
) -> (r: Vec<(String, TreeNode)>)
    requires
        index <= components@.len(),
    ensures
        children_view(r@) == insert_comps(
            children_view(children@),
            views_of(components@).skip(index as int),
        ),
    decreases components@.len() - index, children@.len(),
{
    let mut children = children;
    let ghost cv = children_view(children@);
    let ghost comps = views_of(components@).skip(index as int);
    if index >= components.len() {
        proof {
            assert(comps.len() == 0);
        }
        return children;
    }
    let name: &str = components[index];
    proof {
        assert(comps[0] == views_of(components@)[index as int]);
        assert(comps[0] == name@);
    }
    let last = index + 1 == components.len();
    if children.len() == 0 {
        let node: TreeNode = if last {
            TreeNode::File
        } else {
            let sub = add_components_to_tree(Vec::new(), components, index + 1);
            proof {
                assert(children_view(Seq::<(String, TreeNode)>::empty()) =~= Seq::<
                    (Seq<char>, GTree),
                >::empty());
                assert(views_of(components@).skip(index as int).skip(1) =~= views_of(
                    components@,
                ).skip(index + 1));
            }
            TreeNode::Directory(sub)
        };
        children.push((name.to_owned(), node));
        proof {
            assert(children_view(children@) =~= insert_comps(cv, comps));
        }
        children
    } else {
        let head_is_name = {
            let head = &children[0];
            str_eq(head.0.as_str(), name)
        };
        if head_is_name {
            let (nm, old_node) = children.remove(0);
            proof {
                assert(children_view(children@) =~= cv.drop_first());
            }
            if last {
                children.insert(0, (nm, TreeNode::File));
                proof {
                    assert(children_view(children@) =~= insert_comps(cv, comps));
                }
                children
            } else {
                match old_node {
                    TreeNode::Directory(sub) => {
                        let ghost sub_view = children_view(sub@);
                        let newsub = add_components_to_tree(sub, components, index + 1);
                        proof {
                            assert(cv[0].1 == GTree::Dir(sub_view));
                            assert(views_of(components@).skip(index as int).skip(1) =~= views_of(
                                components@,
                            ).skip(index + 1));
                        }
                        children.insert(0, (nm, TreeNode::Directory(newsub)));
                        proof {
                            assert(children_view(children@) =~= insert_comps(cv, comps));
                        }
                        children
                    },
                    TreeNode::File => {
                        children.insert(0, (nm, TreeNode::File));
                        proof {
                            assert(cv[0].1 == GTree::File);
                            assert(children_view(children@) =~= cv);
                            assert(insert_comps(cv, comps) == cv);
                        }
                        children
                    },
                }
            }
        } else {
            let name_first = {
                let head = &children[0];
                str_lt(name, head.0.as_str())
            };
            if name_first {
                let node: TreeNode = if last {
                    TreeNode::File
                } else {
                    let sub = add_components_to_tree(Vec::new(), components, index + 1);
                    proof {
                        assert(children_view(Seq::<(String, TreeNode)>::empty()) =~= Seq::<
                            (Seq<char>, GTree),
                        >::empty());
                        assert(views_of(components@).skip(index as int).skip(1) =~= views_of(
                            components@,
                        ).skip(index + 1));
                    }
                    TreeNode::Directory(sub)
                };
                children.insert(0, (name.to_owned(), node));
                proof {
                    assert(children_view(children@) =~= insert_comps(cv, comps));
                }
                children
            } else {
                let head = children.remove(0);
                proof {
                    assert(children_view(children@) =~= cv.drop_first());
                }
                let mut rest = add_components_to_tree(children, components, index);
                rest.insert(0, head);
                proof {
                    assert(children_view(rest@) =~= insert_comps(cv, comps));
                }
                rest
            }
        }
    }
}

/// Insert one path into an ordered child list.  A path without components
/// leaves the list unchanged.
pub fn add_to_tree(children: Vec<(String, TreeNode)>, path: &str) -> (r: Vec<(String, TreeNode)>)
    ensures
        children_view(r@) == insert_comps(children_view(children@), components_of(path@)),
{
    let comps = path_components(path);
    proof {
        assert(views_of(comps@).skip(0) =~= components_of(path@));
    }
    add_components_to_tree(children, &comps, 0)
}

/// Append the rendered lines of a child list, each line the prefix, a
/// connector and the child's name, with a directory's children following
/// under a deepened prefix.
pub fn build_tree_lines(tree: &Vec<(String, TreeNode)>, lines: &mut Vec<String>, prefix: &str)
    ensures
        final(lines)@.map_values(|s: String| s@) == old(lines)@.map_values(|s: String| s@)
            + render_children(children_view(tree@), prefix@),
    decreases tree@,
{
    broadcast use vstd::prelude::Seq::lemma_push_map_commute;

    let n = tree.len();
    let ghost cv = children_view(tree@);
    let ghost lines0 = old(lines)@.map_values(|s: String| s@);
    let mut i: usize = 0;
    proof {
        assert(cv.skip(0) =~= cv);
        assert(lines0 + render_children(cv, prefix@).take(0) =~= lines0);
    }
    while i < n
        invariant
            0 <= i <= n,
            n == tree@.len(),
            cv == children_view(tree@),
            lines0 == old(lines)@.map_values(|s: String| s@),
            lines@.map_values(|s: String| s@) + render_children(cv.skip(i as int), prefix@)
                == lines0 + render_children(cv, prefix@),
        decreases n - i,
    {
        let is_last = i + 1 == n;
        let connector: &str = if is_last {
            "└── "
        } else {
            "├── "
        };
        let deeper: &str = if is_last {
            "    "
        } else {
            "│   "
        };
        let mut line = prefix.to_owned();
        let node = &tree[i];
        line.append(connector);
        line.append(node.0.as_str());
        let ghost pre_lines = lines@.map_values(|s: String| s@);
        lines.push(line);
        proof {
            assert(cv.skip(i as int)[0] == (tree@[i as int].0@, tree_view(tree@[i as int].1)));
            assert(cv.skip(i as int).drop_first() =~= cv.skip(i + 1));
            assert(lines@.map_values(|s: String| s@) =~= pre_lines + seq![
                prefix@ + connector@ + node.0@,
            ]);
        }
        match &node.1 {
            TreeNode::File => {
                proof {
                    assert(tree_view(tree@[i as int].1) == GTree::File);
                    assert(lines@.map_values(|s: String| s@) + render_children(
                        cv.skip(i + 1),
                        prefix@,
                    ) =~= lines0 + render_children(cv, prefix@));
                }
            },
            TreeNode::Directory(sub) => {
                let mut deep_prefix = prefix.to_owned();
                deep_prefix.append(deeper);
                proof {
                    assert(tree_view(tree@[i as int].1) == GTree::Dir(children_view(sub@)));
                    assert(deep_prefix@ == prefix@ + deeper@);
                }
                build_tree_lines(sub, lines, deep_prefix.as_str());
                proof {
                    assert(lines@.map_values(|s: String| s@) + render_children(
                        cv.skip(i + 1),
                        prefix@,
                    ) =~= lines0 + render_children(cv, prefix@));
                }
            },
        }
        i = i + 1;
    }
    proof {
        assert(cv.skip(n as int).len() == 0);
        assert(lines@.map_values(|s: String| s@) + render_children(cv.skip(n as int), prefix@)
            =~= lines@.map_values(|s: String| s@));
    }
}

/// Render the structure listing for a list of file paths: fold the paths
/// into a tree of components in order, then draw it.  An empty list yields
/// no lines.
pub fn generate_directory_structure(files: &[String]) -> (r: Vec<String>)
    ensures
        r@.map_values(|s: String| s@) == structure_spec(files@.map_values(|s: String| s@)),
{
    let ghost file_views = files@.map_values(|s: String| s@);
    let mut root: Vec<(String, TreeNode)> = Vec::new();
    let n = files.len();
    let mut i: usize = 0;
    proof {
        assert(children_view(root@) =~= Seq::<(Seq<char>, GTree)>::empty());
        assert(file_views.take(0) =~= Seq::<Seq<char>>::empty());
    }
    while i < n
        invariant
            0 <= i <= n,
            n == files@.len(),
            file_views == files@.map_values(|s: String| s@),
            children_view(root@) == build_tree(file_views.take(i as int)),
        decreases n - i,
    {
        let f: &String = vstd::slice::slice_index_get(files, i);
        root = add_to_tree(root, f.as_str());
        proof {
            assert(file_views.take(i + 1).drop_last() =~= file_views.take(i as int));
            assert(file_views.take(i + 1).last() == files@[i as int]@);
        }
        i = i + 1;
    }
    proof {
        assert(file_views.take(n as int) =~= file_views);
    }
    let mut lines: Vec<String> = Vec::new();
    proof {
        reveal_strlit("");
        assert(lines@.map_values(|s: String| s@) =~= Seq::<Seq<char>>::empty());
        assert(""@ =~= Seq::<char>::empty());
    }
    build_tree_lines(&root, &mut lines, "");
    proof {
        assert(Seq::<Seq<char>>::empty() + render_children(children_view(root@), ""@)
            =~= render_children(children_view(root@), Seq::<char>::empty()));
    }
    lines
}

} // verus!
