//! Executable aggregator logic: the predicates, the module discovery and the
//! rendering that turn a scanned directory tree into generated aggregator
//! files.  Every function is verified against the model in [`crate::tree`].

use vstd::prelude::*;
use vstd::string::StrSliceExecFns;
use vstd::string::StringExecFns;
use crate::tree::FsNode;
use crate::tree::GeneratedFileSpec;
use crate::tree::ModuleSpec;
use crate::tree::child_module_names;
use crate::tree::child_modules;
use crate::tree::decl_lines;
use crate::tree::export_lines;
use crate::tree::file_stem;
use crate::tree::generated_files;
use crate::tree::generates;
use crate::tree::has_entry_file;
use crate::tree::hidden_name;
use crate::tree::included;
use crate::tree::is_entry_file;
use crate::tree::mod_rs_content;
use crate::tree::module_name_of;
use crate::tree::node_name;
use crate::tree::plan_children;
use crate::tree::plan_node;
use crate::tree::qualifies;
use crate::tree::qualifying_child;
use crate::tree::rs_file_name;

verus! {

/// One discovered module, ready to be rendered into its parent's aggregator
/// file: its name, its location on disk and whether it originates from a
/// single file or from a subdirectory.
pub struct Module {
    pub name: String,
    pub path: Vec<String>,
    pub is_file: bool,
}

impl View for Module {
    type V = ModuleSpec;

    open spec fn view(&self) -> ModuleSpec {
        ModuleSpec { name: self.name@, path: path_view(self.path@), is_file: self.is_file }
    }
}

/// One aggregator file to be written: the directory it belongs to, as path
/// segments below the scan root, and its full text.
pub struct GeneratedFile {
    pub path: Vec<String>,
    pub content: String,
}

impl View for GeneratedFile {
    type V = GeneratedFileSpec;

    open spec fn view(&self) -> GeneratedFileSpec {
        GeneratedFileSpec { path: path_view(self.path@), content: self.content@ }
    }
}

/// The views of a sequence of path segments.
pub open spec fn path_view(v: Seq<String>) -> Seq<Seq<char>> {
    v.map_values(|s: String| s@)
}

/// The views of a sequence of generated files.
pub open spec fn files_view(v: Seq<GeneratedFile>) -> Seq<GeneratedFileSpec> {
    v.map_values(|g: GeneratedFile| g@)
}

/// The names of a sequence of discovered modules.
pub open spec fn module_names(v: Seq<Module>) -> Seq<Seq<char>> {
    v.map_values(|m: Module| m@.name)
}

fn str_eq(a: &str, b: &str) -> (r: bool)
    ensures
        r == (a@ == b@),
{
    a.to_owned() == b.to_owned()
}

/// Whether a file or directory name is hidden from the scan: it starts with
/// a dot, or it is the build-output directory `target`.
pub fn is_hidden(name: &str) -> (r: bool)
    ensures
        r == hidden_name(name@),
{
    let n = name.unicode_len();
    if n > 0 && name.get_char(0) == '.' {
        true
    } else {
        str_eq(name, "target")
    }
}

fn is_rs_name(name: &str) -> (r: bool)
    ensures
        r == rs_file_name(name@),
{
    let n = name.unicode_len();
    if n < 4 {
        false
    } else {
        name.get_char(n - 3) == '.' && name.get_char(n - 2) == 'r' && name.get_char(n - 1) == 's'
    }
}

fn is_qualifying_child(n: &FsNode) -> (r: bool)
    ensures
        r == qualifying_child(*n),
{
    match n {
        FsNode::File { name } => is_rs_name(name.as_str()) && !str_eq(name.as_str(), "mod.rs"),
        FsNode::Dir { name, .. } => !is_hidden(name.as_str()),
    }
}

fn is_entry_file_node(n: &FsNode) -> (r: bool)
    ensures
        r == is_entry_file(*n),
{
    match n {
        FsNode::File { name } => str_eq(name.as_str(), "mod.rs") || str_eq(name.as_str(), "lib.rs"),
        FsNode::Dir { .. } => false,
    }
}

/// The qualification predicate on a directory's direct children: true when
/// at least one child is a source file other than the aggregator file, or a
/// subdirectory that is not hidden.  Only such directories receive an
/// aggregator file.
pub fn should_create_mod_rs(entries: &Vec<FsNode>) -> (r: bool)
    ensures
        r == qualifies(entries@),
{
    let mut i: usize = 0;
    while i < entries.len()
        invariant
            0 <= i <= entries.len(),
            forall|j: int| 0 <= j < i ==> !qualifying_child(#[trigger] entries@[j]),
        decreases entries.len() - i,
    {
        if is_qualifying_child(&entries[i]) {
            return true;
        }
        i += 1;
    }
    false
}

fn has_entry_file_exec(entries: &Vec<FsNode>) -> (r: bool)
    ensures
        r == has_entry_file(entries@),
{
    let mut i: usize = 0;
    while i < entries.len()
        invariant
            0 <= i <= entries.len(),
            forall|j: int| 0 <= j < i ==> !is_entry_file(#[trigger] entries@[j]),
        decreases entries.len() - i,
    {
        if is_entry_file_node(&entries[i]) {
            return true;
        }
        i += 1;
    }
    false
}

/// Whether a child node contributes a module to its parent's aggregator
/// file.  For a directory this inspects the directory's own children, so the
/// check recurses into the tree.
fn node_included(n: &FsNode) -> (r: bool)
    ensures
        r == included(*n),
    decreases *n,
{
    match n {
        FsNode::File { name } => !is_hidden(name.as_str()) && !str_eq(name.as_str(), "mod.rs")
            && is_rs_name(name.as_str()),
        FsNode::Dir { name, children } => {
            if is_hidden(name.as_str()) {
                false
            } else if has_entry_file_exec(children) {
                true
            } else {
                proof {
                    crate::tree::lemma_child_module_names_nonempty(children@);
                }
                should_create_mod_rs(children) && has_included_child(children)
            }
        },
    }
}

fn has_included_child(entries: &Vec<FsNode>) -> (r: bool)
    ensures
        r == exists|i: int| 0 <= i < entries@.len() && included(#[trigger] entries@[i]),
    decreases entries@,
{
    let mut i: usize = 0;
    while i < entries.len()
        invariant
            0 <= i <= entries.len(),
            forall|j: int| 0 <= j < i ==> !included(#[trigger] entries@[j]),
        decreases entries.len() - i,
    {
        if node_included(&entries[i]) {
            return true;
        }
        i += 1;
    }
    false
}

fn clone_path(p: &Vec<String>) -> (r: Vec<String>)
    ensures
        path_view(r@) == path_view(p@),
{
    let mut r: Vec<String> = Vec::new();
    let mut i: usize = 0;
    while i < p.len()
        invariant
            0 <= i <= p.len(),
            path_view(r@) == path_view(p@).take(i as int),
        decreases p.len() - i,
    {
        let ghost prev = r@;
        r.push(p[i].clone());
        proof {
            assert(path_view(prev).len() == i);
            assert(path_view(r@) =~= path_view(p@).take(i + 1 as int));
        }
        i += 1;
    }
    assert(path_view(r@) =~= path_view(p@));
    r
}

/// Discover the modules of a directory at `dir_path` from its direct
/// children: one module per included child, in listing order, each named
/// after the file stem or the directory name.
pub fn collect_modules(dir_path: &Vec<String>, entries: &Vec<FsNode>) -> (r: Vec<Module>)
    ensures
        r@.map_values(|m: Module| m@) == child_modules(path_view(dir_path@), entries@),
{
    let ghost base = path_view(dir_path@);
    let mut r: Vec<Module> = Vec::new();
    let mut i: usize = 0;
    while i < entries.len()
        invariant
            0 <= i <= entries.len(),
            r@.map_values(|m: Module| m@) == child_modules(base, entries@.take(i as int)),
            base == path_view(dir_path@),
        decreases entries.len() - i,
    {
        let ghost taken = entries@.take(i + 1 as int);
        proof {
            assert(taken.drop_last() =~= entries@.take(i as int));
            assert(taken.last() == entries@[i as int]);
        }
        if node_included(&entries[i]) {
            let name: String = match &entries[i] {
                FsNode::File { name } => {
                    let n = name.as_str().unicode_len();
                    name.as_str().substring_char(0, n - 3).to_owned()
                },
                FsNode::Dir { name, .. } => name.clone(),
            };
            let entry_name: String = match &entries[i] {
                FsNode::File { name } => name.clone(),
                FsNode::Dir { name, .. } => name.clone(),
            };
            let mut path = clone_path(dir_path);
            path.push(entry_name);
            let is_file = match &entries[i] {
                FsNode::File { .. } => true,
                FsNode::Dir { .. } => false,
            };
            let m = Module { name, path, is_file };
            proof {
                assert(m@.path =~= base.push(node_name(entries@[i as int])));
                assert(m@.name == module_name_of(entries@[i as int]));
            }
            r.push(m);
            assert(r@.map_values(|mm: Module| mm@) =~= child_modules(base, taken));
        } else {
            assert(r@.map_values(|mm: Module| mm@) =~= child_modules(base, taken));
        }
        i += 1;
    }
    proof {
        assert(entries@.take(entries@.len() as int) =~= entries@);
    }
    r
}

/// Render the text of an aggregator file for the given modules: one
/// declaration line per module, a blank line, then one re-export block with
/// one wildcard entry per module.
pub fn render_mod_rs(modules: &Vec<Module>) -> (r: String)
    ensures
        r@ == mod_rs_content(module_names(modules@)),
{
    let ghost names = module_names(modules@);
    let mut content = String::new();
    let mut i: usize = 0;
    while i < modules.len()
        invariant
            0 <= i <= modules.len(),
            content@ == decl_lines(names.take(i as int)),
            names == module_names(modules@),
        decreases modules.len() - i,
    {
        proof {
            assert(names.take(i + 1 as int).drop_last() =~= names.take(i as int));
            assert(names.take(i + 1 as int).last() == modules@[i as int]@.name);
        }
        content.append("pub mod ");
        content.append(modules[i].name.as_str());
        content.append(";\n");
        i += 1;
    }
    proof {
        assert(names.take(modules@.len() as int) =~= names);
    }
    content.append("\n");
    content.append("pub use self::{\n");
    let ghost mid = content@;
    let mut j: usize = 0;
    while j < modules.len()
        invariant
            0 <= j <= modules.len(),
            content@ == mid + export_lines(names.take(j as int)),
            names == module_names(modules@),
            mid == decl_lines(names) + "\n"@ + "pub use self::{\n"@,
        decreases modules.len() - j,
    {
        proof {
            assert(names.take(j + 1 as int).drop_last() =~= names.take(j as int));
            assert(names.take(j + 1 as int).last() == modules@[j as int]@.name);
        }
        content.append("    ");
        content.append(modules[j].name.as_str());
        content.append("::*,\n");
        j += 1;
    }
    proof {
        assert(names.take(modules@.len() as int) =~= names);
    }
    content.append("};\n");
    assert(content@ =~= mod_rs_content(names));
    content
}

/// Produce the aggregator file for one directory from its direct children,
/// or nothing when the directory discovers no modules.  A directory that
/// discovers no modules never receives a file, so a stale file already on
/// disk is left untouched.
pub fn generate_mod_rs(dir_path: &Vec<String>, entries: &Vec<FsNode>) -> (r: Option<GeneratedFile>)
    ensures
        match r {
            Option::None => !generates(entries@),
            Option::Some(g) => generates(entries@) && g@.path == path_view(dir_path@) && g@.content
                == mod_rs_content(child_module_names(entries@)),
        },
{
    proof {
        crate::tree::lemma_child_modules_names(path_view(dir_path@), entries@);
        crate::tree::lemma_nonempty_implies_qualifies(entries@);
    }
    let modules = collect_modules(dir_path, entries);
    assert(module_names(modules@) =~= child_modules(path_view(dir_path@), entries@).map_values(
        |m: ModuleSpec| m.name,
    ));
    if modules.len() == 0 {
        assert(child_module_names(entries@).len() == 0);
        None
    } else {
        let content = render_mod_rs(&modules);
        let path = clone_path(dir_path);
        Some(GeneratedFile { path, content })
    }
}

/// Visit one node of the walk: generate the aggregator file of a qualifying
/// directory, then visit its children in listing order, appending every
/// generated file to `out`.  Hidden directories are pruned: they are neither
/// generated for nor descended into.
#[verifier::loop_isolation(false)]
fn plan_into(path: &Vec<String>, node: &FsNode, out: &mut Vec<GeneratedFile>)
    ensures
        files_view(final(out)@) == files_view(old(out)@) + plan_node(path_view(path@), *node),
    decreases *node,
{
    let ghost pre = out@;
    match node {
        FsNode::File { .. } => {
            assert(files_view(out@) =~= files_view(pre) + plan_node(path_view(path@), *node));
        },
        FsNode::Dir { name, children } => {
            if is_hidden(name.as_str()) {
                assert(files_view(out@) =~= files_view(pre) + plan_node(path_view(path@), *node));
            } else {
                let mut own_path = clone_path(path);
                own_path.push(name.clone());
                assert(path_view(own_path@) =~= path_view(path@).push(name@));
                let ghost own: Seq<GeneratedFileSpec> = if generates(children@) {
                    seq![
                        GeneratedFileSpec {
                            path: path_view(path@).push(name@),
                            content: mod_rs_content(child_module_names(children@)),
                        },
                    ]
                } else {
                    Seq::empty()
                };
                match generate_mod_rs(&own_path, children) {
                    Some(g) => {
                        out.push(g);
                        assert(files_view(out@) =~= files_view(pre) + own);
                    },
                    None => {
                        assert(files_view(out@) =~= files_view(pre) + own);
                    },
                }
                let mut i: usize = 0;
                while i < children.len()
                    invariant
                        0 <= i <= children.len(),
                        files_view(out@) == files_view(pre) + own + plan_children(
                            path_view(own_path@),
                            children@.take(i as int),
                        ),
                        path_view(own_path@) == path_view(path@).push(name@),
                        own == if generates(children@) {
                            seq![
                                GeneratedFileSpec {
                                    path: path_view(path@).push(name@),
                                    content: mod_rs_content(child_module_names(children@)),
                                },
                            ]
                        } else {
                            Seq::<GeneratedFileSpec>::empty()
                        },
                    decreases children.len() - i,
                {
                    plan_into(&own_path, &children[i], out);
                    proof {
                        let taken = children@.take(i + 1 as int);
                        assert(taken.drop_last() =~= children@.take(i as int));
                        assert(taken.last() == children@[i as int]);
                        assert(files_view(out@) =~= files_view(pre) + own + plan_children(
                            path_view(own_path@),
                            taken,
                        ));
                    }
                    i += 1;
                }
                proof {
                    assert(children@.take(children@.len() as int) =~= children@);
                    assert(files_view(out@) =~= files_view(pre) + plan_node(
                        path_view(path@),
                        *node,
                    ));
                }
            }
        },
    }
}

/// Run the aggregator over a scanned tree: every qualifying directory below
/// the root, the root itself excepted, receives its aggregator file.  The
/// returned files appear in walk order, each with its path relative to the
/// root.
pub fn generate_mod_files(root: &FsNode) -> (r: Vec<GeneratedFile>)
    ensures
        files_view(r@) == generated_files(*root),
{
    let mut out: Vec<GeneratedFile> = Vec::new();
    match root {
        FsNode::File { .. } => {
            assert(files_view(out@) =~= generated_files(*root));
        },
        FsNode::Dir { name, children } => {
            if is_hidden(name.as_str()) {
                assert(files_view(out@) =~= generated_files(*root));
            } else {
                let base: Vec<String> = Vec::new();
                assert(path_view(base@) =~= Seq::<Seq<char>>::empty());
                let mut i: usize = 0;
                while i < children.len()
                    invariant
                        0 <= i <= children.len(),
                        path_view(base@) == Seq::<Seq<char>>::empty(),
                        files_view(out@) == plan_children(
                            Seq::<Seq<char>>::empty(),
                            children@.take(i as int),
                        ),
                    decreases children.len() - i,
                {
                    plan_into(&base, &children[i], &mut out);
                    proof {
                        let taken = children@.take(i + 1 as int);
                        assert(taken.drop_last() =~= children@.take(i as int));
                        assert(taken.last() == children@[i as int]);
                        assert(files_view(out@) =~= plan_children(
                            Seq::<Seq<char>>::empty(),
                            taken,
                        ));
                    }
                    i += 1;
                }
                proof {
                    assert(children@.take(children@.len() as int) =~= children@);
                }
            }
        },
    }
    out
}

/// Run the aggregator with the conventional source root: the scanned tree of
/// the `src` directory.  Equivalent to [`generate_mod_files`] on that tree.
pub fn build(root: &FsNode) -> (r: Vec<GeneratedFile>)
    ensures
        files_view(r@) == generated_files(*root),
{
    generate_mod_files(root)
}

} // verus!
