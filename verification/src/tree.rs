//! The mathematical model of a scanned source tree and of the aggregator
//! files generated for it.
//!
//! A directory tree is a value of [`FsNode`]: a file is known by its name, a
//! directory by its name and the list of its direct children, in the order in
//! which the directory listing returned them.  The spec functions here say,
//! for such a tree, which directories receive a generated aggregator file and
//! with what content.
//!
//! A subdirectory counts as a module of its parent when it is a module root:
//! it holds an entry file, or the same run gives it an aggregator file.  The
//! model therefore reads as if directories were processed children first, so
//! that every directory's own aggregator file exists before its parent's
//! module list is settled; the outcome then does not depend on the order in
//! which the walk happens to visit the directories, and a second run over
//! the resulting tree is provably identical (see [`lemma_build_idempotent`]).

use vstd::prelude::*;

verus! {

/// One entry of a scanned directory tree: a plain file, or a directory with
/// its direct children in listing order.
pub enum FsNode {
    File { name: String },
    Dir { name: String, children: Vec<FsNode> },
}

/// One module discovered in a directory: its name, its location and whether
/// it comes from a single file or from a subdirectory.
pub struct ModuleSpec {
    pub name: Seq<char>,
    pub path: Seq<Seq<char>>,
    pub is_file: bool,
}

/// One generated aggregator file: the directory it belongs to, as path
/// segments below the scan root, and its full text.
pub struct GeneratedFileSpec {
    pub path: Seq<Seq<char>>,
    pub content: Seq<char>,
}

/// The name of a node, file or directory.
pub open spec fn node_name(n: FsNode) -> Seq<char> {
    match n {
        FsNode::File { name } => name@,
        FsNode::Dir { name, .. } => name@,
    }
}

/// The direct children of a directory node; the empty sequence for a file.
pub open spec fn node_children(n: FsNode) -> Seq<FsNode> {
    match n {
        FsNode::File { .. } => Seq::empty(),
        FsNode::Dir { children, .. } => children@,
    }
}

/// A hidden entry: its name starts with a dot, or it is the build-output
/// directory `target`.  Hidden entries never contribute modules and hidden
/// directories are not descended into.
pub open spec fn hidden_name(s: Seq<char>) -> bool {
    (s.len() > 0 && s[0] == '.') || s == "target"@
}

/// A file name whose extension is the source extension `rs`: it ends in
/// `.rs` and the final dot is not its first character, so a bare `.rs` does
/// not count.
pub open spec fn rs_file_name(s: Seq<char>) -> bool {
    s.len() >= 4 && s[s.len() - 3] == '.' && s[s.len() - 2] == 'r' && s[s.len() - 1] == 's'
}

/// The stem of a source file name: the name with its `.rs` extension removed.
pub open spec fn file_stem(s: Seq<char>) -> Seq<char> {
    s.subrange(0, s.len() - 3)
}

/// Whether a node is the canonical aggregator file itself.
pub open spec fn is_aggregator_file(n: FsNode) -> bool {
    n is File && node_name(n) == "mod.rs"@
}

/// Whether a node is an entry file that makes its directory a module root on
/// its own: an aggregator file or a crate root file.
pub open spec fn is_entry_file(n: FsNode) -> bool {
    n is File && (node_name(n) == "mod.rs"@ || node_name(n) == "lib.rs"@)
}

/// Whether a directory with these children already contains an entry file.
pub open spec fn has_entry_file(children: Seq<FsNode>) -> bool {
    exists|i: int| 0 <= i < children.len() && is_entry_file(#[trigger] children[i])
}

/// One child that makes its directory qualify for aggregator generation: a
/// source file other than the aggregator file itself, or a subdirectory that
/// is not hidden.
pub open spec fn qualifying_child(n: FsNode) -> bool {
    (n is File && rs_file_name(node_name(n)) && node_name(n) != "mod.rs"@) || (n is Dir
        && !hidden_name(node_name(n)))
}

/// The qualification predicate: a directory qualifies when at least one of
/// its direct children is a qualifying child.
pub open spec fn qualifies(children: Seq<FsNode>) -> bool {
    exists|i: int| 0 <= i < children.len() && qualifying_child(#[trigger] children[i])
}

/// Whether a child contributes a module to its parent's aggregator file.  A
/// file contributes when it is a visible source file other than the
/// aggregator file.  A directory contributes when it is visible and is a
/// valid module root once the tree has been processed children first: it
/// already holds an entry file, or the generation pass gives it one.
pub open spec fn included(n: FsNode) -> bool
    decreases n,
{
    match n {
        FsNode::File { name } => !hidden_name(name@) && name@ != "mod.rs"@ && rs_file_name(name@),
        FsNode::Dir { name, children } => !hidden_name(name@) && (has_entry_file(children@) || (
        qualifies(children@) && child_module_names(children@).len() > 0)),
    }
}

/// The module name a child contributes: the file stem for a file, the
/// directory name for a directory.
pub open spec fn module_name_of(n: FsNode) -> Seq<char> {
    match n {
        FsNode::File { name } => file_stem(name@),
        FsNode::Dir { name, .. } => name@,
    }
}

/// The names of the modules a directory's aggregator file declares: one per
/// included child, in listing order.
pub open spec fn child_module_names(children: Seq<FsNode>) -> Seq<Seq<char>>
    decreases children,
{
    if children.len() == 0 {
        Seq::empty()
    } else {
        let prefix = child_module_names(children.drop_last());
        if included(children.last()) {
            prefix.push(module_name_of(children.last()))
        } else {
            prefix
        }
    }
}

/// Whether the generation pass writes an aggregator file for a directory
/// with these children: it qualifies and discovers at least one module.
pub open spec fn generates(children: Seq<FsNode>) -> bool {
    qualifies(children) && child_module_names(children).len() > 0
}

/// The full module records of a directory at `base`: one per included child,
/// in listing order, each carrying the child's own location.
pub open spec fn child_modules(base: Seq<Seq<char>>, children: Seq<FsNode>) -> Seq<ModuleSpec>
    decreases children,
{
    if children.len() == 0 {
        Seq::empty()
    } else {
        let prefix = child_modules(base, children.drop_last());
        if included(children.last()) {
            prefix.push(
                ModuleSpec {
                    name: module_name_of(children.last()),
                    path: base.push(node_name(children.last())),
                    is_file: children.last() is File,
                },
            )
        } else {
            prefix
        }
    }
}

/// The declaration block of an aggregator file: one `pub mod` line per
/// module name, in order.
pub open spec fn decl_lines(names: Seq<Seq<char>>) -> Seq<char>
    decreases names.len(),
{
    if names.len() == 0 {
        Seq::empty()
    } else {
        decl_lines(names.drop_last()) + "pub mod "@ + names.last() + ";\n"@
    }
}

/// The re-export entries of an aggregator file: one wildcard entry per
/// module name, in order.
pub open spec fn export_lines(names: Seq<Seq<char>>) -> Seq<char>
    decreases names.len(),
{
    if names.len() == 0 {
        Seq::empty()
    } else {
        export_lines(names.drop_last()) + "    "@ + names.last() + "::*,\n"@
    }
}

/// The full text of an aggregator file for the given module names: the
/// declaration block, a blank line, and a single re-export block.
pub open spec fn mod_rs_content(names: Seq<Seq<char>>) -> Seq<char> {
    decl_lines(names) + "\n"@ + "pub use self::{\n"@ + export_lines(names) + "};\n"@
}

/// The aggregator files generated for one visited node and everything below
/// it.  A file generates nothing.  A hidden directory is pruned from the
/// walk: neither it nor anything below it generates.  A visible directory
/// receives its own file when it qualifies and discovers modules, followed by
/// the files of its children in listing order.
pub open spec fn plan_node(path: Seq<Seq<char>>, node: FsNode) -> Seq<GeneratedFileSpec>
    decreases node,
{
    match node {
        FsNode::File { .. } => Seq::empty(),
        FsNode::Dir { name, children } => {
            if hidden_name(name@) {
                Seq::empty()
            } else {
                let own_path = path.push(name@);
                let own: Seq<GeneratedFileSpec> = if generates(children@) {
                    seq![
                        GeneratedFileSpec {
                            path: own_path,
                            content: mod_rs_content(child_module_names(children@)),
                        },
                    ]
                } else {
                    Seq::empty()
                };
                own + plan_children(own_path, children@)
            }
        },
    }
}

/// The aggregator files generated below a directory whose location is
/// `path`: the plans of its children, concatenated in listing order.
pub open spec fn plan_children(path: Seq<Seq<char>>, children: Seq<FsNode>) -> Seq<
    GeneratedFileSpec,
>
    decreases children,
{
    if children.len() == 0 {
        Seq::empty()
    } else {
        plan_children(path, children.drop_last()) + plan_node(path, children.last())
    }
}

/// Every aggregator file a scan of `root` generates, with paths relative to
/// the root.  The root itself never receives a file; a hidden root is not
/// walked at all; a root that is a plain file generates nothing.
pub open spec fn generated_files(root: FsNode) -> Seq<GeneratedFileSpec> {
    match root {
        FsNode::File { .. } => Seq::empty(),
        FsNode::Dir { name, children } => {
            if hidden_name(name@) {
                Seq::empty()
            } else {
                plan_children(Seq::empty(), children@)
            }
        },
    }
}

/// A directory discovers a module if and only if one of its children is
/// included.
pub proof fn lemma_child_module_names_nonempty(children: Seq<FsNode>)
    ensures
        child_module_names(children).len() > 0 <==> exists|i: int|
            0 <= i < children.len() && included(#[trigger] children[i]),
    decreases children.len(),
{
    if children.len() == 0 {
    } else {
        lemma_child_module_names_nonempty(children.drop_last());
        let prefix = children.drop_last();
        assert(forall|j: int| 0 <= j < prefix.len() ==> #[trigger] prefix[j] == children[j]);
        if child_module_names(children).len() > 0 {
            if included(children.last()) {
                assert(included(children[children.len() - 1]));
            } else {
                let j = choose|j: int| 0 <= j < prefix.len() && included(#[trigger] prefix[j]);
                assert(included(children[j]));
            }
        }
        if exists|i: int| 0 <= i < children.len() && included(#[trigger] children[i]) {
            let i = choose|i: int| 0 <= i < children.len() && included(#[trigger] children[i]);
            if i < children.len() - 1 {
                assert(included(prefix[i]));
            }
        }
    }
}

/// An included child is a qualifying child, so a directory that discovers a
/// module also qualifies: generation happens exactly when the discovered
/// module list is non-empty.
pub proof fn lemma_nonempty_implies_qualifies(children: Seq<FsNode>)
    ensures
        child_module_names(children).len() > 0 ==> qualifies(children),
        generates(children) <==> child_module_names(children).len() > 0,
{
    if child_module_names(children).len() > 0 {
        lemma_child_module_names_nonempty(children);
        let i = choose|i: int| 0 <= i < children.len() && included(#[trigger] children[i]);
        assert(qualifying_child(children[i]));
    }
}

/// The discovered module records carry exactly the discovered module names,
/// in the same order.
pub proof fn lemma_child_modules_names(base: Seq<Seq<char>>, children: Seq<FsNode>)
    ensures
        child_modules(base, children).map_values(|m: ModuleSpec| m.name) == child_module_names(
            children,
        ),
    decreases children.len(),
{
    if children.len() == 0 {
        assert(child_modules(base, children).map_values(|m: ModuleSpec| m.name)
            =~= child_module_names(children));
    } else {
        lemma_child_modules_names(base, children.drop_last());
        assert(child_modules(base, children).map_values(|m: ModuleSpec| m.name)
            =~= child_module_names(children));
    }
}

/// Whether a directory with these children already holds the canonical
/// aggregator file.
pub open spec fn has_aggregator_file(children: Seq<FsNode>) -> bool {
    exists|i: int| 0 <= i < children.len() && is_aggregator_file(#[trigger] children[i])
}

/// How one run of the aggregator changes a node: `after` is `before` once
/// the generated files are on disk.  A file keeps its name; its content may
/// have been overwritten but the tree records no contents.  A hidden
/// directory is never visited and keeps its entire subtree.  A visible
/// directory that generates and lacked the aggregator file gains it as one
/// more child; every other visible directory keeps exactly its children.
/// Nothing is ever removed.
pub open spec fn run_applied(before: FsNode, after: FsNode) -> bool
    decreases before,
{
    match before {
        FsNode::File { name } => after is File && node_name(after) == name@,
        FsNode::Dir { name, children } => after is Dir && node_name(after) == name@ && {
            let ca = node_children(after);
            if hidden_name(name@) {
                ca == children@
            } else if generates(children@) && !has_aggregator_file(children@) {
                &&& ca.len() == children@.len() + 1
                &&& run_applied_seq(children@, ca.drop_last())
                &&& is_aggregator_file(ca.last())
            } else {
                run_applied_seq(children@, ca)
            }
        },
    }
}

/// Pairwise [`run_applied`] over two child lists of equal length.
pub open spec fn run_applied_seq(before: Seq<FsNode>, after: Seq<FsNode>) -> bool
    decreases before,
{
    if before.len() != after.len() {
        false
    } else if before.len() == 0 {
        true
    } else {
        run_applied_seq(before.drop_last(), after.drop_last()) && run_applied(
            before.last(),
            after.last(),
        )
    }
}

proof fn lemma_has_entry_file_unfold(s: Seq<FsNode>)
    requires
        s.len() > 0,
    ensures
        has_entry_file(s) <==> (is_entry_file(s.last()) || has_entry_file(s.drop_last())),
{
    let p = s.drop_last();
    assert(forall|j: int| 0 <= j < p.len() ==> #[trigger] p[j] == s[j]);
    if has_entry_file(s) {
        let i = choose|i: int| 0 <= i < s.len() && is_entry_file(#[trigger] s[i]);
        if i < s.len() - 1 {
            assert(is_entry_file(p[i]));
        }
    }
    if has_entry_file(p) {
        let i = choose|i: int| 0 <= i < p.len() && is_entry_file(#[trigger] p[i]);
        assert(is_entry_file(s[i]));
    }
    if is_entry_file(s.last()) {
        assert(is_entry_file(s[s.len() - 1]));
    }
}

proof fn lemma_qualifies_unfold(s: Seq<FsNode>)
    requires
        s.len() > 0,
    ensures
        qualifies(s) <==> (qualifying_child(s.last()) || qualifies(s.drop_last())),
{
    let p = s.drop_last();
    assert(forall|j: int| 0 <= j < p.len() ==> #[trigger] p[j] == s[j]);
    if qualifies(s) {
        let i = choose|i: int| 0 <= i < s.len() && qualifying_child(#[trigger] s[i]);
        if i < s.len() - 1 {
            assert(qualifying_child(p[i]));
        }
    }
    if qualifies(p) {
        let i = choose|i: int| 0 <= i < p.len() && qualifying_child(#[trigger] p[i]);
        assert(qualifying_child(s[i]));
    }
    if qualifying_child(s.last()) {
        assert(qualifying_child(s[s.len() - 1]));
    }
}

proof fn lemma_run_applied_node(path: Seq<Seq<char>>, before: FsNode, after: FsNode)
    requires
        run_applied(before, after),
    ensures
        after is File <==> before is File,
        node_name(after) == node_name(before),
        included(after) == included(before),
        module_name_of(after) == module_name_of(before),
        qualifying_child(after) == qualifying_child(before),
        is_entry_file(after) == is_entry_file(before),
        plan_node(path, after) == plan_node(path, before),
    decreases before,
{
    match before {
        FsNode::File { name } => {},
        FsNode::Dir { name, children } => {
            let cb = children@;
            let ca = node_children(after);
            let own_path = path.push(name@);
            if hidden_name(name@) {
                assert(hidden_name(node_name(after)));
                assert(!included(after) && !included(before));
                assert(plan_node(path, after) =~= Seq::<GeneratedFileSpec>::empty());
                assert(plan_node(path, before) =~= Seq::<GeneratedFileSpec>::empty());
            } else if generates(cb) && !has_aggregator_file(cb) {
                lemma_run_applied_children(own_path, cb, ca.drop_last());
                assert(ca.len() > 0);
                lemma_has_entry_file_unfold(ca);
                lemma_qualifies_unfold(ca);
                assert(!qualifying_child(ca.last()));
                assert(qualifies(ca) == qualifies(cb));
                assert(ca.last() is File && node_name(ca.last()) == "mod.rs"@);
                assert(!included(ca.last()));
                assert(child_module_names(ca) == child_module_names(ca.drop_last()));
                assert(generates(ca) == generates(cb));
                assert(has_entry_file(ca));
                assert(included(after) == included(before));
                assert(plan_children(own_path, ca) =~= plan_children(own_path, ca.drop_last())
                    + plan_node(own_path, ca.last()));
                assert(plan_node(own_path, ca.last()) =~= Seq::<GeneratedFileSpec>::empty());
                assert(plan_children(own_path, ca) =~= plan_children(own_path, cb));
                assert(plan_node(path, after) =~= plan_node(path, before));
            } else {
                lemma_run_applied_children(own_path, cb, ca);
                if cb.len() > 0 {
                    lemma_has_entry_file_unfold(cb);
                }
                assert(included(after) == included(before));
                assert(plan_node(path, after) =~= plan_node(path, before));
            }
        },
    }
}

proof fn lemma_run_applied_children(path: Seq<Seq<char>>, before: Seq<FsNode>, after: Seq<FsNode>)
    requires
        run_applied_seq(before, after),
    ensures
        child_module_names(after) == child_module_names(before),
        has_entry_file(after) == has_entry_file(before),
        qualifies(after) == qualifies(before),
        plan_children(path, after) == plan_children(path, before),
    decreases before,
{
    if before.len() == 0 {
        assert(plan_children(path, after) =~= plan_children(path, before));
    } else {
        lemma_run_applied_children(path, before.drop_last(), after.drop_last());
        lemma_run_applied_node(path, before.last(), after.last());
        lemma_has_entry_file_unfold(before);
        lemma_has_entry_file_unfold(after);
        lemma_qualifies_unfold(before);
        lemma_qualifies_unfold(after);
    }
}

/// Law: running the aggregator a second time on a tree that reflects the
/// first run's writes generates exactly the same files, with byte-identical
/// paths and contents.  [`run_applied_root`] relates the scanned tree to the
/// tree after the first run: the root itself receives no file, each child is
/// changed only by the writes below it.
pub open spec fn run_applied_root(before: FsNode, after: FsNode) -> bool {
    match before {
        FsNode::File { .. } => after == before,
        FsNode::Dir { name, children } => {
            if hidden_name(name@) {
                after == before
            } else {
                after is Dir && node_name(after) == name@ && run_applied_seq(
                    children@,
                    node_children(after),
                )
            }
        },
    }
}

/// Law: the aggregator is idempotent.  Given no other filesystem changes, a
/// second run over the tree left behind by the first produces the same
/// generated files.
pub proof fn lemma_build_idempotent(before: FsNode, after: FsNode)
    requires
        run_applied_root(before, after),
    ensures
        generated_files(after) == generated_files(before),
{
    match before {
        FsNode::File { .. } => {},
        FsNode::Dir { name, children } => {
            if !hidden_name(name@) {
                lemma_run_applied_children(Seq::empty(), children@, node_children(after));
            }
        },
    }
}

/// Law: a directory's aggregator file declares exactly one module per
/// included child and re-exports exactly one entry per module: the declared
/// names are precisely the names of the included children, in listing order,
/// with none repeated for one child and none left out, and the file is the
/// declaration block, a blank line, and the re-export block over that same
/// name list.
pub proof fn lemma_one_entry_per_module(children: Seq<FsNode>)
    ensures
        child_module_names(children) == children.filter(|n: FsNode| included(n)).map_values(
            |n: FsNode| module_name_of(n),
        ),
        child_module_names(children).len() == children.filter(|n: FsNode| included(n)).len(),
        mod_rs_content(child_module_names(children)) == decl_lines(child_module_names(children))
            + "\n"@ + "pub use self::{\n"@ + export_lines(child_module_names(children)) + "};\n"@,
    decreases children.len(),
{
    let pred = |n: FsNode| included(n);
    let f = |n: FsNode| module_name_of(n);
    if children.len() == 0 {
        reveal(Seq::filter);
        assert(children.filter(pred).map_values(f) =~= child_module_names(children));
    } else {
        let prefix = children.drop_last();
        lemma_one_entry_per_module(prefix);
        prefix.lemma_filter_push(children.last(), pred);
        assert(prefix.push(children.last()) =~= children);
        if included(children.last()) {
            assert(children.filter(pred) == prefix.filter(pred).push(children.last()));
            assert(children.filter(pred).map_values(f) =~= prefix.filter(pred).map_values(f).push(
                f(children.last()),
            ));
        }
    }
}

/// Law: a directory with no qualifying children receives no aggregator
/// file.  Its visit contributes only the files of the directories below it,
/// and since a run only ever writes aggregator files (see [`run_applied`]),
/// a stale file already inside such a directory is never deleted.
pub proof fn lemma_no_qualifying_children_no_file(path: Seq<Seq<char>>, node: FsNode)
    requires
        node is Dir,
        !hidden_name(node_name(node)),
        !qualifies(node_children(node)),
    ensures
        plan_node(path, node) == plan_children(path.push(node_name(node)), node_children(node)),
{
    match node {
        FsNode::File { .. } => {},
        FsNode::Dir { name, children } => {
            assert(plan_node(path, node) =~= plan_children(path.push(name@), children@));
        },
    }
}

} // verus!
