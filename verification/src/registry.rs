//! The export registry: a compile-time collision table keyed by the
//! composite key `location + "::" + identifier`, the expansion step that
//! turns an annotated declaration into a registration descriptor, and the
//! process-wide runtime registry that enumerates every recorded descriptor.

use vstd::prelude::*;
use vstd::string::StringExecFns;

verus! {

/// The descriptor recorded for one registered declaration: the externally
/// visible name, the enclosing compile-time location, the full dotted path,
/// and which naming policy produced the name.
pub struct ExportItem {
    pub name: String,
    pub location: String,
    pub full_path: String,
    pub is_fullpath: bool,
}

/// The mathematical value of an [`ExportItem`].
pub struct ExportItemSpec {
    pub name: Seq<char>,
    pub location: Seq<char>,
    pub full_path: Seq<char>,
    pub is_fullpath: bool,
}

impl View for ExportItem {
    type V = ExportItemSpec;

    open spec fn view(&self) -> ExportItemSpec {
        ExportItemSpec {
            name: self.name@,
            location: self.location@,
            full_path: self.full_path@,
            is_fullpath: self.is_fullpath,
        }
    }
}

/// The views of a sequence of descriptors.
pub open spec fn item_views(v: Seq<ExportItem>) -> Seq<ExportItemSpec> {
    v.map_values(|i: ExportItem| i@)
}

/// The kinds of declaration the annotation can be applied to.  Only a
/// struct, an enum or a function carries an identifier the registry can
/// record; every other declaration kind is rejected at expansion time.
pub enum Decl {
    Struct { ident: String },
    Enum { ident: String },
    Function { ident: String },
    Other,
}

/// Whether a declaration kind is eligible for registration.
pub open spec fn supported(d: Decl) -> bool {
    !(d is Other)
}

/// The bare identifier of a supported declaration.
pub open spec fn decl_ident(d: Decl) -> Seq<char> {
    match d {
        Decl::Struct { ident } => ident@,
        Decl::Enum { ident } => ident@,
        Decl::Function { ident } => ident@,
        Decl::Other => Seq::empty(),
    }
}

/// The composite uniqueness key of a declaration: its location, the path
/// separator, and its bare identifier.
pub open spec fn composite_key(location: Seq<char>, ident: Seq<char>) -> Seq<char> {
    location + "::"@ + ident
}

/// The display name a registration records: the bare identifier, or the
/// full dotted path when the full-path naming policy is chosen.
pub open spec fn display_name(ident: Seq<char>, full_path: Seq<char>, use_fullpath: bool) -> Seq<
    char,
> {
    if use_fullpath {
        full_path
    } else {
        ident
    }
}

/// Whether a registration under `key` recording `shown` is accepted against
/// the table `m`: the key is new, or is already recorded with the identical
/// descriptor.
pub open spec fn registration_accepted(
    m: Map<Seq<char>, Seq<char>>,
    key: Seq<char>,
    shown: Seq<char>,
) -> bool {
    !m.contains_key(key) || m[key] == shown
}

/// The failures of the expansion step: an ineligible declaration kind, or a
/// collision with an earlier registration under the same composite key.  A
/// collision names the colliding key and the descriptor already recorded for
/// it.
#[derive(Debug)]
pub enum ExportError {
    Unsupported,
    Collision { name: String, existing: String },
}

/// The map described by a list of key/descriptor entries: later entries win.
pub open spec fn entries_map(s: Seq<(Seq<char>, Seq<char>)>) -> Map<Seq<char>, Seq<char>>
    decreases s.len(),
{
    if s.len() == 0 {
        Map::empty()
    } else {
        entries_map(s.drop_last()).insert(s.last().0, s.last().1)
    }
}

/// The process-wide compile-time collision table: one entry per composite
/// key seen so far, each with the descriptor recorded for it.  It lives for
/// one build invocation and is never persisted.
pub struct ExportTable {
    entries: Vec<(String, String)>,
}

impl ExportTable {
    /// The entries as mathematical values, in insertion order.
    pub closed spec fn entries_seq(self) -> Seq<(Seq<char>, Seq<char>)> {
        self.entries@.map_values(|e: (String, String)| (e.0@, e.1@))
    }

    /// The table as a map from composite key to recorded descriptor.
    pub closed spec fn as_map(self) -> Map<Seq<char>, Seq<char>> {
        entries_map(self.entries_seq())
    }

    /// Well-formed: no composite key occurs twice.
    pub closed spec fn wf(self) -> bool {
        forall|i: int, j: int|
            0 <= i < j < self.entries_seq().len() ==> (#[trigger] self.entries_seq()[i]).0 != (
            #[trigger] self.entries_seq()[j]).0
    }

    /// An empty table: no key is registered.
    pub fn new() -> (r: ExportTable)
        ensures
            r.wf(),
            r.as_map() == Map::<Seq<char>, Seq<char>>::empty(),
    {
        let r = ExportTable { entries: Vec::new() };
        proof {
            assert(r.entries_seq() =~= Seq::<(Seq<char>, Seq<char>)>::empty());
        }
        r
    }
}

proof fn lemma_entries_map_contains(s: Seq<(Seq<char>, Seq<char>)>, k: Seq<char>)
    ensures
        entries_map(s).contains_key(k) <==> exists|i: int|
            0 <= i < s.len() && (#[trigger] s[i]).0 == k,
    decreases s.len(),
{
    if s.len() == 0 {
    } else {
        lemma_entries_map_contains(s.drop_last(), k);
        let prefix = s.drop_last();
        assert(forall|j: int| 0 <= j < prefix.len() ==> #[trigger] prefix[j] == s[j]);
        if entries_map(s).contains_key(k) {
            if s.last().0 == k {
                assert((s[s.len() - 1]).0 == k);
            } else {
                let i = choose|i: int| 0 <= i < prefix.len() && (#[trigger] prefix[i]).0 == k;
                assert((s[i]).0 == k);
            }
        }
        if exists|i: int| 0 <= i < s.len() && (#[trigger] s[i]).0 == k {
            let i = choose|i: int| 0 <= i < s.len() && (#[trigger] s[i]).0 == k;
            if i < s.len() - 1 {
                assert((prefix[i]).0 == k);
            }
        }
    }
}

proof fn lemma_entries_map_at(s: Seq<(Seq<char>, Seq<char>)>, i: int)
    requires
        0 <= i < s.len(),
        forall|p: int, q: int|
            0 <= p < q < s.len() ==> (#[trigger] s[p]).0 != (#[trigger] s[q]).0,
    ensures
        entries_map(s).contains_key(s[i].0),
        entries_map(s)[s[i].0] == s[i].1,
    decreases s.len(),
{
    let prefix = s.drop_last();
    assert(forall|j: int| 0 <= j < prefix.len() ==> #[trigger] prefix[j] == s[j]);
    if i == s.len() - 1 {
    } else {
        lemma_entries_map_at(prefix, i);
        assert(s.last().0 != s[i].0);
    }
}

/// Record a composite key with its descriptor in the collision table.  The
/// registration succeeds when the key is new, or is already recorded with
/// the identical descriptor; it fails, and leaves the table untouched, when
/// the key is already recorded with a different descriptor.
pub fn register_export(table: &mut ExportTable, name: &str, path: &str) -> (r: Result<
    (),
    ExportError,
>)
    requires
        old(table).wf(),
    ensures
        final(table).wf(),
        r is Ok <==> registration_accepted(old(table).as_map(), name@, path@),
        r is Ok ==> final(table).as_map() == old(table).as_map().insert(name@, path@),
        match r {
            Result::Ok(u) => true,
            Result::Err(e) => match e {
                ExportError::Unsupported => false,
                ExportError::Collision { name: n, existing } => n@ == name@ && existing@ == old(
                    table,
                ).as_map()[name@] && existing@ != path@ && *final(table) == *old(table),
            },
        },
{
    let ghost s0 = table.entries_seq();
    let mut i: usize = 0;
    while i < table.entries.len()
        invariant
            0 <= i <= table.entries.len(),
            forall|j: int| 0 <= j < i ==> (#[trigger] table.entries_seq()[j]).0 != name@,
            table.wf(),
            *table == *old(table),
            s0 == table.entries_seq(),
        decreases table.entries.len() - i,
    {
        if str_eq(table.entries[i].0.as_str(), name) {
            proof {
                lemma_entries_map_at(s0, i as int);
            }
            if str_eq(table.entries[i].1.as_str(), path) {
                proof {
                    assert(table.as_map().insert(name@, path@) =~= table.as_map());
                }
                return Ok(());
            } else {
                let existing = table.entries[i].1.clone();
                return Err(ExportError::Collision { name: name.to_owned(), existing });
            }
        }
        i += 1;
    }
    proof {
        lemma_entries_map_contains(s0, name@);
    }
    let pair = (name.to_owned(), path.to_owned());
    table.entries.push(pair);
    proof {
        assert(table.entries_seq() =~= s0.push((name@, path@)));
        assert(table.entries_seq().drop_last() =~= s0);
        assert(table.as_map() == entries_map(s0).insert(name@, path@));
        assert(forall|j: int| 0 <= j < s0.len() ==> (#[trigger] s0[j]).0 != name@);
    }
    Ok(())
}

fn str_eq(a: &str, b: &str) -> (r: bool)
    ensures
        r == (a@ == b@),
{
    a.to_owned() == b.to_owned()
}

/// Expand one annotated declaration.  An ineligible declaration kind fails
/// outright.  Otherwise the declaration's composite key is checked against
/// the collision table: a key already recorded with a different descriptor
/// is a collision, and anything else records the descriptor and yields the
/// registration record for the declaration.
pub fn process_export(
    table: &mut ExportTable,
    decl: &Decl,
    location: &str,
    use_fullpath: bool,
) -> (r: Result<ExportItem, ExportError>)
    requires
        old(table).wf(),
    ensures
        final(table).wf(),
        !supported(*decl) ==> (r matches Result::Err(ExportError::Unsupported)) && *final(table)
            == *old(table),
        supported(*decl) ==> {
            let key = composite_key(location@, decl_ident(*decl));
            let shown = display_name(decl_ident(*decl), key, use_fullpath);
            &&& (r is Ok <==> registration_accepted(old(table).as_map(), key, shown))
            &&& match r {
                Result::Ok(item) => item@ == (ExportItemSpec {
                    name: shown,
                    location: location@,
                    full_path: key,
                    is_fullpath: use_fullpath,
                }) && final(table).as_map() == old(table).as_map().insert(key, shown),
                Result::Err(e) => match e {
                    ExportError::Unsupported => false,
                    ExportError::Collision { name: n, existing } => n@ == key && existing@ == old(
                        table,
                    ).as_map()[key] && existing@ != shown && *final(table) == *old(table),
                },
            }
        },
{
    let ident: &String = match decl {
        Decl::Struct { ident } => ident,
        Decl::Enum { ident } => ident,
        Decl::Function { ident } => ident,
        Decl::Other => {
            return Err(ExportError::Unsupported);
        },
    };
    let mut full = location.to_owned();
    full.append("::");
    full.append(ident.as_str());
    let shown = if use_fullpath {
        full.clone()
    } else {
        ident.clone()
    };
    match register_export(table, full.as_str(), shown.as_str()) {
        Ok(u) => Ok(
            ExportItem {
                name: shown,
                location: location.to_owned(),
                full_path: full,
                is_fullpath: use_fullpath,
            },
        ),
        Err(e) => Err(e),
    }
}

/// The process-wide runtime registry: the append-only collection of every
/// descriptor submitted during startup, enumerable thereafter.
pub struct ExportRegistry {
    items: Vec<ExportItem>,
}

impl ExportRegistry {
    /// The descriptors collected so far, in submission order.
    pub closed spec fn registered(self) -> Seq<ExportItemSpec> {
        item_views(self.items@)
    }

    /// An empty registry: nothing is enumerated.
    pub fn new() -> (r: ExportRegistry)
        ensures
            r.registered() == Seq::<ExportItemSpec>::empty(),
    {
        let r = ExportRegistry { items: Vec::new() };
        proof {
            assert(r.registered() =~= Seq::<ExportItemSpec>::empty());
        }
        r
    }

    /// Append one descriptor; nothing is ever removed or reordered.
    pub fn submit(&mut self, item: ExportItem)
        ensures
            final(self).registered() == old(self).registered().push(item@),
    {
        self.items.push(item);
        proof {
            assert(self.registered() =~= old(self).registered().push(item@));
        }
    }

    /// Enumerate every collected descriptor, in submission order.  Each call
    /// yields the same finite traversal over the same set.
    pub fn iterate(&self) -> (r: &Vec<ExportItem>)
        ensures
            item_views(r@) == self.registered(),
    {
        &self.items
    }
}

fn clone_item(item: &ExportItem) -> (r: ExportItem)
    ensures
        r@ == item@,
{
    ExportItem {
        name: item.name.clone(),
        location: item.location.clone(),
        full_path: item.full_path.clone(),
        is_fullpath: item.is_fullpath,
    }
}

/// The startup routine: walk the statically declared descriptors and
/// populate the runtime registry with exactly that list.
pub fn populate(descriptors: &Vec<ExportItem>) -> (r: ExportRegistry)
    ensures
        r.registered() == item_views(descriptors@),
{
    let mut r = ExportRegistry::new();
    let mut i: usize = 0;
    while i < descriptors.len()
        invariant
            0 <= i <= descriptors.len(),
            r.registered() == item_views(descriptors@.take(i as int)),
        decreases descriptors.len() - i,
    {
        r.submit(clone_item(&descriptors[i]));
        proof {
            assert(item_views(descriptors@.take(i + 1 as int)) =~= item_views(
                descriptors@.take(i as int),
            ).push(descriptors@[i as int]@));
        }
        i += 1;
    }
    proof {
        assert(descriptors@.take(descriptors@.len() as int) =~= descriptors@);
    }
    r
}

/// Law: a bare-identifier collision across two different locations is no
/// collision.  The composite keys of two declarations with the same
/// identifier in different locations always differ, so after the first is
/// recorded the second is still accepted whenever its own key is free.
pub proof fn lemma_export_same_ident_two_locations(
    m: Map<Seq<char>, Seq<char>>,
    loc1: Seq<char>,
    loc2: Seq<char>,
    ident: Seq<char>,
    shown1: Seq<char>,
    shown2: Seq<char>,
)
    requires
        loc1 != loc2,
        !m.contains_key(composite_key(loc1, ident)),
        !m.contains_key(composite_key(loc2, ident)),
    ensures
        composite_key(loc1, ident) != composite_key(loc2, ident),
        registration_accepted(m, composite_key(loc1, ident), shown1),
        registration_accepted(
            m.insert(composite_key(loc1, ident), shown1),
            composite_key(loc2, ident),
            shown2,
        ),
{
    lemma_composite_key_distinct_locations(loc1, loc2, ident);
}

/// Law: the composite key determines the location: different locations give
/// different composite keys, whatever the shared identifier.
pub proof fn lemma_composite_key_distinct_locations(
    loc1: Seq<char>,
    loc2: Seq<char>,
    ident: Seq<char>,
)
    requires
        loc1 != loc2,
    ensures
        composite_key(loc1, ident) != composite_key(loc2, ident),
{
    let k1 = composite_key(loc1, ident);
    let k2 = composite_key(loc2, ident);
    if k1 == k2 {
        assert(k1.len() == loc1.len() + "::"@.len() + ident.len());
        assert(k2.len() == loc2.len() + "::"@.len() + ident.len());
        assert(loc1.len() == loc2.len());
        assert(forall|i: int| 0 <= i < loc1.len() ==> k1[i] == #[trigger] loc1[i]);
        assert(forall|i: int| 0 <= i < loc2.len() ==> k2[i] == #[trigger] loc2[i]);
        assert(loc1 =~= loc2);
    }
}

/// Law: re-registering the identical declaration is idempotent.  A key
/// recorded with a descriptor accepts the same key with the same descriptor
/// again, and re-recording it leaves the table exactly as it was.
pub proof fn lemma_reregistration_idempotent(
    m: Map<Seq<char>, Seq<char>>,
    key: Seq<char>,
    shown: Seq<char>,
)
    ensures
        registration_accepted(m.insert(key, shown), key, shown),
        m.insert(key, shown).insert(key, shown) == m.insert(key, shown),
{
    assert(m.insert(key, shown).insert(key, shown) =~= m.insert(key, shown));
}

/// Law: two distinct declarations that resolve to the identical composite
/// key with differing recorded descriptors collide: once the first is
/// recorded, the second is rejected.
pub proof fn lemma_same_key_differing_content_collides(
    m: Map<Seq<char>, Seq<char>>,
    key: Seq<char>,
    shown1: Seq<char>,
    shown2: Seq<char>,
)
    requires
        shown1 != shown2,
    ensures
        !registration_accepted(m.insert(key, shown1), key, shown2),
{
}

} // verus!
