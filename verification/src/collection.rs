//! The macro collection: a per-root index of every template reachable
//! through macro imports or inheritance, mapping each one's local
//! namespaces to the template that owns the macros behind them.
//!
//! Construction follows the template graph depth first.  A template
//! already indexed is never processed again; a template re-entered while
//! its own imports are still being processed lies on an import cycle, and
//! construction stops with [`MacroError::CyclicImport`] rather than
//! recurse forever.  The whole construction is mirrored, step for step,
//! by the specification functions [`visit_spec`], [`imports_spec`] and
//! [`parents_spec`], so the exact outcome — the index built, or the first
//! failure met — is pinned for every input.

use crate::strmap::Duplicable;
use crate::strmap::StrMap;
use crate::strmap::StrSet;
use crate::template::MacroDefinition;
use crate::template::MacroDefinitionMap;
use crate::template::MacroDefinitionView;
use crate::template::Registry;
use crate::template::Template;
use crate::template::TemplateView;
use crate::template::registry_wf;
use vstd::prelude::*;

verus! {

/// What a namespace of a template resolves to: the template that
/// physically declares the macros, and those macros themselves.
#[derive(Debug)]
pub struct NamespaceEntry {
    /// Name of the origin template, the one that declares the macros.
    pub origin: String,
    /// The origin template's own macros, as of collection time.
    pub macros: MacroDefinitionMap,
}

/// The mathematical value of a [`NamespaceEntry`].
pub struct NamespaceEntryView {
    pub origin: Seq<char>,
    pub macros: Map<Seq<char>, MacroDefinitionView>,
}

impl View for NamespaceEntry {
    type V = NamespaceEntryView;

    open spec fn view(&self) -> NamespaceEntryView {
        NamespaceEntryView { origin: self.origin@, macros: self.macros@ }
    }
}

impl Duplicable for NamespaceEntry {
    fn dup(&self) -> (r: Self)
        ensures
            r@ == self@,
    {
        NamespaceEntry { origin: self.origin.clone(), macros: self.macros.dup() }
    }
}

/// Maps namespace alias to the entry it resolves to.
pub type MacroNamespaceMap = StrMap<NamespaceEntry>;

/// Maps template name to that template's namespace map.
pub type MacroTemplateMap = StrMap<MacroNamespaceMap>;

/// View of a single template's namespace map.
pub type NamespaceMapView = Map<Seq<char>, NamespaceEntryView>;

/// View of a whole collection.
pub type CollectionView = Map<Seq<char>, NamespaceMapView>;

/// View of a registry.
pub type RegistryView = Map<Seq<char>, TemplateView>;

/// Everything that can go wrong while building or querying a collection.
/// Each variant carries the offending identifiers for diagnostics.
#[derive(Debug)]
pub enum MacroError {
    /// A name referenced by an import or a parent chain is not in the
    /// registry.  Raised during construction, which it aborts.
    UnresolvedTemplate { name: String },
    /// A template was re-entered while its own imports were still being
    /// processed: the import graph is cyclic.  Raised during
    /// construction, which it aborts.
    CyclicImport { name: String },
    /// A lookup referenced a namespace not present (or not imported) for
    /// the given template.
    NamespaceNotFound { namespace: String, template: String },
    /// A lookup referenced a namespace that exists but lacks the
    /// requested macro name.
    MacroNotFound { namespace: String, name: String, template: String },
}

/// The mathematical value of a [`MacroError`].
pub enum MacroErrorView {
    UnresolvedTemplate { name: Seq<char> },
    CyclicImport { name: Seq<char> },
    NamespaceNotFound { namespace: Seq<char>, template: Seq<char> },
    MacroNotFound { namespace: Seq<char>, name: Seq<char>, template: Seq<char> },
}

impl View for MacroError {
    type V = MacroErrorView;

    open spec fn view(&self) -> MacroErrorView {
        match self {
            MacroError::UnresolvedTemplate { name } => MacroErrorView::UnresolvedTemplate {
                name: name@,
            },
            MacroError::CyclicImport { name } => MacroErrorView::CyclicImport { name: name@ },
            MacroError::NamespaceNotFound { namespace, template } =>
                MacroErrorView::NamespaceNotFound { namespace: namespace@, template: template@ },
            MacroError::MacroNotFound { namespace, name, template } =>
                MacroErrorView::MacroNotFound {
                namespace: namespace@,
                name: name@,
                template: template@,
            },
        }
    }
}

/// How one construction step ends: the index and visited set so far, or
/// the failure that aborts the whole construction.
pub enum BuildOutcome {
    Done { coll: CollectionView, visiting: Set<Seq<char>> },
    Unresolved { name: Seq<char> },
    Cyclic { name: Seq<char> },
}

/// The namespace map a template starts from: its own macros under
/// `"self"`, or nothing if it declares none.
pub open spec fn self_namespace_map(t: TemplateView) -> NamespaceMapView {
    if t.macros =~= Map::<Seq<char>, MacroDefinitionView>::empty() {
        Map::empty()
    } else {
        Map::empty().insert(
            "self"@,
            NamespaceEntryView { origin: t.name, macros: t.macros },
        )
    }
}

/// One visit of template `t`: nothing to do if `t` is already indexed, a
/// cycle if `t` is still being processed, otherwise process its imports,
/// index it, and process its parents.  `fuel` bounds the recursion; every
/// terminating run is reached at some finite fuel.
pub open spec fn visit_spec(
    fuel: nat,
    reg: RegistryView,
    t: TemplateView,
    coll: CollectionView,
    ip: Set<Seq<char>>,
) -> Option<BuildOutcome>
    decreases fuel,
{
    if fuel == 0 {
        None
    } else if coll.contains_key(t.name) {
        Some(BuildOutcome::Done { coll, visiting: ip })
    } else if ip.contains(t.name) {
        Some(BuildOutcome::Cyclic { name: t.name })
    } else {
        imports_spec(
            (fuel - 1) as nat,
            reg,
            t,
            0,
            self_namespace_map(t),
            coll,
            ip.insert(t.name),
        )
    }
}

/// Process `t`'s macro imports from position `i` on, accumulating `t`'s
/// namespace map in `nm`; when all are done, index `t` and move on to its
/// parents.
pub open spec fn imports_spec(
    fuel: nat,
    reg: RegistryView,
    t: TemplateView,
    i: int,
    nm: NamespaceMapView,
    coll: CollectionView,
    ip: Set<Seq<char>>,
) -> Option<BuildOutcome>
    decreases fuel,
{
    if fuel == 0 {
        None
    } else if i >= t.imported_macro_files.len() {
        parents_spec((fuel - 1) as nat, reg, t, 0, coll.insert(t.name, nm), ip)
    } else {
        let filename = t.imported_macro_files[i].0;
        let alias = t.imported_macro_files[i].1;
        if !reg.contains_key(filename) {
            Some(BuildOutcome::Unresolved { name: filename })
        } else {
            let nm2 = nm.insert(
                alias,
                NamespaceEntryView { origin: filename, macros: reg[filename].macros },
            );
            match visit_spec((fuel - 1) as nat, reg, reg[filename], coll, ip) {
                None => None,
                Some(BuildOutcome::Done { coll: c2, visiting: ip2 }) => imports_spec(
                    (fuel - 1) as nat,
                    reg,
                    t,
                    i + 1,
                    nm2,
                    c2,
                    ip2,
                ),
                Some(o) => Some(o),
            }
        }
    }
}

/// Process `t`'s parents from position `i` on; each is visited in turn so
/// that it gets an index entry of its own.
pub open spec fn parents_spec(
    fuel: nat,
    reg: RegistryView,
    t: TemplateView,
    i: int,
    coll: CollectionView,
    ip: Set<Seq<char>>,
) -> Option<BuildOutcome>
    decreases fuel,
{
    if fuel == 0 {
        None
    } else if i >= t.parents.len() {
        Some(BuildOutcome::Done { coll, visiting: ip })
    } else {
        let parent = t.parents[i];
        if !reg.contains_key(parent) {
            Some(BuildOutcome::Unresolved { name: parent })
        } else {
            match visit_spec((fuel - 1) as nat, reg, reg[parent], coll, ip) {
                None => None,
                Some(BuildOutcome::Done { coll: c2, visiting: ip2 }) => parents_spec(
                    (fuel - 1) as nat,
                    reg,
                    t,
                    i + 1,
                    c2,
                    ip2,
                ),
                Some(o) => Some(o),
            }
        }
    }
}

/// Visiting `t` from the given state ends in outcome `o` at some fuel.
pub open spec fn visit_to(
    reg: RegistryView,
    t: TemplateView,
    coll: CollectionView,
    ip: Set<Seq<char>>,
    o: BuildOutcome,
) -> bool {
    exists|fuel: nat| visit_spec(fuel, reg, t, coll, ip) == Some(o)
}

/// The imports phase of `t` from the given state ends in outcome `o` at
/// some fuel.
pub open spec fn imports_to(
    reg: RegistryView,
    t: TemplateView,
    i: int,
    nm: NamespaceMapView,
    coll: CollectionView,
    ip: Set<Seq<char>>,
    o: BuildOutcome,
) -> bool {
    exists|fuel: nat| imports_spec(fuel, reg, t, i, nm, coll, ip) == Some(o)
}

/// The parents phase of `t` from the given state ends in outcome `o` at
/// some fuel.
pub open spec fn parents_to(
    reg: RegistryView,
    t: TemplateView,
    i: int,
    coll: CollectionView,
    ip: Set<Seq<char>>,
    o: BuildOutcome,
) -> bool {
    exists|fuel: nat| parents_spec(fuel, reg, t, i, coll, ip) == Some(o)
}

/// Building from `coll0` anchored at `t` succeeds and yields `coll1`.
pub open spec fn collects_to(
    reg: RegistryView,
    t: TemplateView,
    coll0: CollectionView,
    coll1: CollectionView,
) -> bool {
    exists|ip: Set<Seq<char>>|
        visit_to(reg, t, coll0, Set::empty(), BuildOutcome::Done { coll: coll1, visiting: ip })
}

/// Building from `coll0` anchored at `t` aborts with error `e`.
pub open spec fn collect_fails(
    reg: RegistryView,
    t: TemplateView,
    coll0: CollectionView,
    e: MacroErrorView,
) -> bool {
    match e {
        MacroErrorView::UnresolvedTemplate { name } => visit_to(
            reg,
            t,
            coll0,
            Set::empty(),
            BuildOutcome::Unresolved { name },
        ),
        MacroErrorView::CyclicImport { name } => visit_to(
            reg,
            t,
            coll0,
            Set::empty(),
            BuildOutcome::Cyclic { name },
        ),
        _ => false,
    }
}

proof fn lemma_visit_mono(
    f1: nat,
    f2: nat,
    reg: RegistryView,
    t: TemplateView,
    coll: CollectionView,
    ip: Set<Seq<char>>,
)
    requires
        f1 <= f2,
        visit_spec(f1, reg, t, coll, ip) is Some,
    ensures
        visit_spec(f2, reg, t, coll, ip) == visit_spec(f1, reg, t, coll, ip),
    decreases f1,
{
    if !coll.contains_key(t.name) && !ip.contains(t.name) {
        lemma_imports_mono(
            (f1 - 1) as nat,
            (f2 - 1) as nat,
            reg,
            t,
            0,
            self_namespace_map(t),
            coll,
            ip.insert(t.name),
        );
    }
}

proof fn lemma_imports_mono(
    f1: nat,
    f2: nat,
    reg: RegistryView,
    t: TemplateView,
    i: int,
    nm: NamespaceMapView,
    coll: CollectionView,
    ip: Set<Seq<char>>,
)
    requires
        f1 <= f2,
        imports_spec(f1, reg, t, i, nm, coll, ip) is Some,
    ensures
        imports_spec(f2, reg, t, i, nm, coll, ip) == imports_spec(f1, reg, t, i, nm, coll, ip),
    decreases f1,
{
    if i >= t.imported_macro_files.len() {
        lemma_parents_mono(
            (f1 - 1) as nat,
            (f2 - 1) as nat,
            reg,
            t,
            0,
            coll.insert(t.name, nm),
            ip,
        );
    } else {
        let filename = t.imported_macro_files[i].0;
        let alias = t.imported_macro_files[i].1;
        if reg.contains_key(filename) {
            let sub = visit_spec((f1 - 1) as nat, reg, reg[filename], coll, ip);
            match sub {
                None => {},
                Some(BuildOutcome::Done { coll: c2, visiting: ip2 }) => {
                    lemma_visit_mono((f1 - 1) as nat, (f2 - 1) as nat, reg, reg[filename], coll, ip);
                    let nm2 = nm.insert(
                        alias,
                        NamespaceEntryView { origin: filename, macros: reg[filename].macros },
                    );
                    lemma_imports_mono((f1 - 1) as nat, (f2 - 1) as nat, reg, t, i + 1, nm2, c2, ip2);
                },
                Some(_) => {
                    lemma_visit_mono((f1 - 1) as nat, (f2 - 1) as nat, reg, reg[filename], coll, ip);
                },
            }
        }
    }
}

proof fn lemma_parents_mono(
    f1: nat,
    f2: nat,
    reg: RegistryView,
    t: TemplateView,
    i: int,
    coll: CollectionView,
    ip: Set<Seq<char>>,
)
    requires
        f1 <= f2,
        parents_spec(f1, reg, t, i, coll, ip) is Some,
    ensures
        parents_spec(f2, reg, t, i, coll, ip) == parents_spec(f1, reg, t, i, coll, ip),
    decreases f1,
{
    if i < t.parents.len() {
        let parent = t.parents[i];
        if reg.contains_key(parent) {
            let sub = visit_spec((f1 - 1) as nat, reg, reg[parent], coll, ip);
            match sub {
                None => {},
                Some(BuildOutcome::Done { coll: c2, visiting: ip2 }) => {
                    lemma_visit_mono((f1 - 1) as nat, (f2 - 1) as nat, reg, reg[parent], coll, ip);
                    lemma_parents_mono((f1 - 1) as nat, (f2 - 1) as nat, reg, t, i + 1, c2, ip2);
                },
                Some(_) => {
                    lemma_visit_mono((f1 - 1) as nat, (f2 - 1) as nat, reg, reg[parent], coll, ip);
                },
            }
        }
    }
}

/// From one state, a visit has at most one outcome.
pub proof fn lemma_visit_functional(
    reg: RegistryView,
    t: TemplateView,
    coll: CollectionView,
    ip: Set<Seq<char>>,
    o1: BuildOutcome,
    o2: BuildOutcome,
)
    requires
        visit_to(reg, t, coll, ip, o1),
        visit_to(reg, t, coll, ip, o2),
    ensures
        o1 == o2,
{
    let f1 = choose|f: nat| visit_spec(f, reg, t, coll, ip) == Some(o1);
    let f2 = choose|f: nat| visit_spec(f, reg, t, coll, ip) == Some(o2);
    if f1 <= f2 {
        lemma_visit_mono(f1, f2, reg, t, coll, ip);
    } else {
        lemma_visit_mono(f2, f1, reg, t, coll, ip);
    }
}

/// Two successful builds from the same state yield the same collection.
pub proof fn lemma_collects_to_functional(
    reg: RegistryView,
    t: TemplateView,
    coll0: CollectionView,
    c1: CollectionView,
    c2: CollectionView,
)
    requires
        collects_to(reg, t, coll0, c1),
        collects_to(reg, t, coll0, c2),
    ensures
        c1 == c2,
{
    let ip1 = choose|ip: Set<Seq<char>>|
        visit_to(reg, t, coll0, Set::empty(), BuildOutcome::Done { coll: c1, visiting: ip });
    let ip2 = choose|ip: Set<Seq<char>>|
        visit_to(reg, t, coll0, Set::empty(), BuildOutcome::Done { coll: c2, visiting: ip });
    lemma_visit_functional(
        reg,
        t,
        coll0,
        Set::empty(),
        BuildOutcome::Done { coll: c1, visiting: ip1 },
        BuildOutcome::Done { coll: c2, visiting: ip2 },
    );
}

/// A build that succeeds cannot also fail from the same state.
pub proof fn lemma_collect_outcome_exclusive(
    reg: RegistryView,
    t: TemplateView,
    coll0: CollectionView,
    c: CollectionView,
    e: MacroErrorView,
)
    requires
        collects_to(reg, t, coll0, c),
    ensures
        !collect_fails(reg, t, coll0, e),
{
    if collect_fails(reg, t, coll0, e) {
        let ip1 = choose|ip: Set<Seq<char>>|
            visit_to(reg, t, coll0, Set::empty(), BuildOutcome::Done { coll: c, visiting: ip });
        match e {
            MacroErrorView::UnresolvedTemplate { name } => {
                lemma_visit_functional(
                    reg,
                    t,
                    coll0,
                    Set::empty(),
                    BuildOutcome::Done { coll: c, visiting: ip1 },
                    BuildOutcome::Unresolved { name },
                );
            },
            MacroErrorView::CyclicImport { name } => {
                lemma_visit_functional(
                    reg,
                    t,
                    coll0,
                    Set::empty(),
                    BuildOutcome::Done { coll: c, visiting: ip1 },
                    BuildOutcome::Cyclic { name },
                );
            },
            _ => {},
        }
    }
}

proof fn lemma_step_done(reg: RegistryView, t: TemplateView, coll: CollectionView, ip: Set<Seq<char>>)
    requires
        coll.contains_key(t.name),
    ensures
        visit_to(reg, t, coll, ip, BuildOutcome::Done { coll, visiting: ip }),
{
    assert(visit_spec(1, reg, t, coll, ip) == Some(BuildOutcome::Done { coll, visiting: ip }));
}

proof fn lemma_step_cyclic(
    reg: RegistryView,
    t: TemplateView,
    coll: CollectionView,
    ip: Set<Seq<char>>,
)
    requires
        !coll.contains_key(t.name),
        ip.contains(t.name),
    ensures
        visit_to(reg, t, coll, ip, BuildOutcome::Cyclic { name: t.name }),
{
    assert(visit_spec(1, reg, t, coll, ip) == Some(BuildOutcome::Cyclic { name: t.name }));
}

proof fn lemma_step_enter(
    reg: RegistryView,
    t: TemplateView,
    coll: CollectionView,
    ip: Set<Seq<char>>,
    o: BuildOutcome,
)
    requires
        !coll.contains_key(t.name),
        !ip.contains(t.name),
        imports_to(reg, t, 0, self_namespace_map(t), coll, ip.insert(t.name), o),
    ensures
        visit_to(reg, t, coll, ip, o),
{
    let f = choose|f: nat|
        imports_spec(f, reg, t, 0, self_namespace_map(t), coll, ip.insert(t.name)) == Some(o);
    assert(visit_spec(f + 1, reg, t, coll, ip) == Some(o));
}

proof fn lemma_imports_unresolved(
    reg: RegistryView,
    t: TemplateView,
    i: int,
    nm: NamespaceMapView,
    coll: CollectionView,
    ip: Set<Seq<char>>,
)
    requires
        0 <= i < t.imported_macro_files.len(),
        !reg.contains_key(t.imported_macro_files[i].0),
    ensures
        imports_to(
            reg,
            t,
            i,
            nm,
            coll,
            ip,
            BuildOutcome::Unresolved { name: t.imported_macro_files[i].0 },
        ),
{
    assert(imports_spec(1, reg, t, i, nm, coll, ip) == Some(
        BuildOutcome::Unresolved { name: t.imported_macro_files[i].0 },
    ));
}

proof fn lemma_imports_sub_done(
    reg: RegistryView,
    t: TemplateView,
    i: int,
    nm: NamespaceMapView,
    coll: CollectionView,
    ip: Set<Seq<char>>,
    c2: CollectionView,
    ip2: Set<Seq<char>>,
    o: BuildOutcome,
)
    requires
        0 <= i < t.imported_macro_files.len(),
        reg.contains_key(t.imported_macro_files[i].0),
        visit_to(
            reg,
            reg[t.imported_macro_files[i].0],
            coll,
            ip,
            BuildOutcome::Done { coll: c2, visiting: ip2 },
        ),
        imports_to(
            reg,
            t,
            i + 1,
            nm.insert(
                t.imported_macro_files[i].1,
                NamespaceEntryView {
                    origin: t.imported_macro_files[i].0,
                    macros: reg[t.imported_macro_files[i].0].macros,
                },
            ),
            c2,
            ip2,
            o,
        ),
    ensures
        imports_to(reg, t, i, nm, coll, ip, o),
{
    let filename = t.imported_macro_files[i].0;
    let nm2 = nm.insert(
        t.imported_macro_files[i].1,
        NamespaceEntryView { origin: filename, macros: reg[filename].macros },
    );
    let fa = choose|f: nat|
        visit_spec(f, reg, reg[filename], coll, ip) == Some(
            BuildOutcome::Done { coll: c2, visiting: ip2 },
        );
    let i2 = i + 1;
    let fb = choose|f: nat| imports_spec(f, reg, t, i2, nm2, c2, ip2) == Some(o);
    let f = if fa >= fb {
        fa
    } else {
        fb
    };
    lemma_visit_mono(fa, f, reg, reg[filename], coll, ip);
    lemma_imports_mono(fb, f, reg, t, i + 1, nm2, c2, ip2);
    assert(imports_spec(f + 1, reg, t, i, nm, coll, ip) == Some(o));
}

proof fn lemma_imports_sub_err(
    reg: RegistryView,
    t: TemplateView,
    i: int,
    nm: NamespaceMapView,
    coll: CollectionView,
    ip: Set<Seq<char>>,
    o: BuildOutcome,
)
    requires
        0 <= i < t.imported_macro_files.len(),
        reg.contains_key(t.imported_macro_files[i].0),
        visit_to(reg, reg[t.imported_macro_files[i].0], coll, ip, o),
        !(o is Done),
    ensures
        imports_to(reg, t, i, nm, coll, ip, o),
{
    let filename = t.imported_macro_files[i].0;
    let f = choose|f: nat| visit_spec(f, reg, reg[filename], coll, ip) == Some(o);
    assert(imports_spec(f + 1, reg, t, i, nm, coll, ip) == Some(o));
}

proof fn lemma_imports_finish(
    reg: RegistryView,
    t: TemplateView,
    nm: NamespaceMapView,
    coll: CollectionView,
    ip: Set<Seq<char>>,
    o: BuildOutcome,
)
    requires
        parents_to(reg, t, 0, coll.insert(t.name, nm), ip, o),
    ensures
        imports_to(reg, t, t.imported_macro_files.len() as int, nm, coll, ip, o),
{
    let f = choose|f: nat| parents_spec(f, reg, t, 0, coll.insert(t.name, nm), ip) == Some(o);
    assert(imports_spec(f + 1, reg, t, t.imported_macro_files.len() as int, nm, coll, ip) == Some(
        o,
    ));
}

proof fn lemma_parents_done(
    reg: RegistryView,
    t: TemplateView,
    coll: CollectionView,
    ip: Set<Seq<char>>,
)
    ensures
        parents_to(
            reg,
            t,
            t.parents.len() as int,
            coll,
            ip,
            BuildOutcome::Done { coll, visiting: ip },
        ),
{
    assert(parents_spec(1, reg, t, t.parents.len() as int, coll, ip) == Some(
        BuildOutcome::Done { coll, visiting: ip },
    ));
}

proof fn lemma_parents_unresolved(
    reg: RegistryView,
    t: TemplateView,
    i: int,
    coll: CollectionView,
    ip: Set<Seq<char>>,
)
    requires
        0 <= i < t.parents.len(),
        !reg.contains_key(t.parents[i]),
    ensures
        parents_to(reg, t, i, coll, ip, BuildOutcome::Unresolved { name: t.parents[i] }),
{
    assert(parents_spec(1, reg, t, i, coll, ip) == Some(
        BuildOutcome::Unresolved { name: t.parents[i] },
    ));
}

proof fn lemma_parents_sub_done(
    reg: RegistryView,
    t: TemplateView,
    i: int,
    coll: CollectionView,
    ip: Set<Seq<char>>,
    c2: CollectionView,
    ip2: Set<Seq<char>>,
    o: BuildOutcome,
)
    requires
        0 <= i < t.parents.len(),
        reg.contains_key(t.parents[i]),
        visit_to(reg, reg[t.parents[i]], coll, ip, BuildOutcome::Done { coll: c2, visiting: ip2 }),
        parents_to(reg, t, i + 1, c2, ip2, o),
    ensures
        parents_to(reg, t, i, coll, ip, o),
{
    let parent = t.parents[i];
    let fa = choose|f: nat|
        visit_spec(f, reg, reg[parent], coll, ip) == Some(
            BuildOutcome::Done { coll: c2, visiting: ip2 },
        );
    let i2 = i + 1;
    let fb = choose|f: nat| parents_spec(f, reg, t, i2, c2, ip2) == Some(o);
    let f = if fa >= fb {
        fa
    } else {
        fb
    };
    lemma_visit_mono(fa, f, reg, reg[parent], coll, ip);
    lemma_parents_mono(fb, f, reg, t, i + 1, c2, ip2);
    assert(parents_spec(f + 1, reg, t, i, coll, ip) == Some(o));
}

proof fn lemma_parents_sub_err(
    reg: RegistryView,
    t: TemplateView,
    i: int,
    coll: CollectionView,
    ip: Set<Seq<char>>,
    o: BuildOutcome,
)
    requires
        0 <= i < t.parents.len(),
        reg.contains_key(t.parents[i]),
        visit_to(reg, reg[t.parents[i]], coll, ip, o),
        !(o is Done),
    ensures
        parents_to(reg, t, i, coll, ip, o),
{
    let parent = t.parents[i];
    let f = choose|f: nat| visit_spec(f, reg, reg[parent], coll, ip) == Some(o);
    assert(parents_spec(f + 1, reg, t, i, coll, ip) == Some(o));
}

/// Frame facts about a successful visit: the entries already indexed are
/// kept unchanged, every new entry names a registry template that was not
/// being processed when the visit began, the set of templates being
/// processed only grows, and the visited template ends up indexed.
pub(crate) proof fn lemma_visit_frame(
    fuel: nat,
    reg: RegistryView,
    t: TemplateView,
    coll: CollectionView,
    ip: Set<Seq<char>>,
)
    requires
        registry_wf(reg),
        reg.contains_key(t.name),
        reg[t.name] == t,
    ensures
        match visit_spec(fuel, reg, t, coll, ip) {
            Some(BuildOutcome::Done { coll: c2, visiting: ip2 }) => {
                &&& forall|k: Seq<char>|
                    #[trigger] coll.contains_key(k) ==> c2.contains_key(k) && c2[k] == coll[k]
                &&& forall|k: Seq<char>|
                    #[trigger] c2.contains_key(k) && !coll.contains_key(k) ==> reg.contains_key(k)
                        && !ip.contains(k)
                &&& ip.subset_of(ip2)
                &&& c2.contains_key(t.name)
            },
            _ => true,
        },
    decreases fuel,
{
    if fuel > 0 && !coll.contains_key(t.name) && !ip.contains(t.name) {
        let ip1 = ip.insert(t.name);
        lemma_imports_frame((fuel - 1) as nat, reg, t, 0, self_namespace_map(t), coll, ip1);
        match imports_spec((fuel - 1) as nat, reg, t, 0, self_namespace_map(t), coll, ip1) {
            Some(BuildOutcome::Done { coll: c2, visiting: ip2 }) => {
                assert forall|k: Seq<char>|
                    c2.contains_key(k) && !coll.contains_key(k) implies reg.contains_key(k)
                    && !ip.contains(k) by {
                    if k != t.name {
                        assert(!ip1.contains(k));
                    }
                }
                assert(ip.subset_of(ip2)) by {
                    assert(forall|k: Seq<char>| ip.contains(k) ==> ip1.contains(k));
                }
            },
            _ => {},
        }
    }
}

pub(crate) proof fn lemma_imports_frame(
    fuel: nat,
    reg: RegistryView,
    t: TemplateView,
    i: int,
    nm: NamespaceMapView,
    coll: CollectionView,
    ip: Set<Seq<char>>,
)
    requires
        registry_wf(reg),
        reg.contains_key(t.name),
        reg[t.name] == t,
        !coll.contains_key(t.name),
        ip.contains(t.name),
    ensures
        match imports_spec(fuel, reg, t, i, nm, coll, ip) {
            Some(BuildOutcome::Done { coll: c2, visiting: ip2 }) => {
                &&& forall|k: Seq<char>|
                    #[trigger] coll.contains_key(k) ==> c2.contains_key(k) && c2[k] == coll[k]
                &&& forall|k: Seq<char>|
                    #[trigger] c2.contains_key(k) && !coll.contains_key(k) ==> reg.contains_key(k)
                        && (k == t.name || !ip.contains(k))
                &&& ip.subset_of(ip2)
                &&& c2.contains_key(t.name)
            },
            _ => true,
        },
    decreases fuel,
{
    if fuel > 0 {
        if i >= t.imported_macro_files.len() {
            let coll1 = coll.insert(t.name, nm);
            lemma_parents_frame((fuel - 1) as nat, reg, t, 0, coll1, ip);
            match parents_spec((fuel - 1) as nat, reg, t, 0, coll1, ip) {
                Some(BuildOutcome::Done { coll: c2, visiting: ip2 }) => {
                    assert forall|k: Seq<char>|
                        #[trigger] coll.contains_key(k) implies c2.contains_key(k) && c2[k]
                        == coll[k] by {
                        assert(coll1.contains_key(k) && coll1[k] == coll[k]);
                    }
                    assert forall|k: Seq<char>|
                        #[trigger] c2.contains_key(k) && !coll.contains_key(k) implies
                        reg.contains_key(k) && (k == t.name || !ip.contains(k)) by {
                        if k != t.name {
                            assert(!coll1.contains_key(k));
                        }
                    }
                    assert(coll1.contains_key(t.name));
                    assert(c2.contains_key(t.name));
                },
                _ => {},
            }
        } else {
            let filename = t.imported_macro_files[i].0;
            let alias = t.imported_macro_files[i].1;
            if reg.contains_key(filename) {
                lemma_visit_frame((fuel - 1) as nat, reg, reg[filename], coll, ip);
                let sub = visit_spec((fuel - 1) as nat, reg, reg[filename], coll, ip);
                match sub {
                    Some(BuildOutcome::Done { coll: c2, visiting: ip2 }) => {
                        let nm2 = nm.insert(
                            alias,
                            NamespaceEntryView { origin: filename, macros: reg[filename].macros },
                        );
                        assert(!c2.contains_key(t.name));
                        assert(ip2.contains(t.name));
                        lemma_imports_frame((fuel - 1) as nat, reg, t, i + 1, nm2, c2, ip2);
                        match imports_spec((fuel - 1) as nat, reg, t, i + 1, nm2, c2, ip2) {
                            Some(BuildOutcome::Done { coll: c3, visiting: ip3 }) => {
                                assert forall|k: Seq<char>|
                                    #[trigger] coll.contains_key(k) implies c3.contains_key(k)
                                    && c3[k] == coll[k] by {
                                    assert(c2.contains_key(k) && c2[k] == coll[k]);
                                }
                                assert forall|k: Seq<char>|
                                    #[trigger] c3.contains_key(k) && !coll.contains_key(k) implies
                                    reg.contains_key(k) && (k == t.name || !ip.contains(k)) by {
                                    if c2.contains_key(k) {
                                        assert(reg.contains_key(k) && !ip.contains(k));
                                    } else {
                                        assert(reg.contains_key(k) && (k == t.name
                                            || !ip2.contains(k)));
                                        if k != t.name && !ip2.contains(k) {
                                            assert(!ip.contains(k));
                                        }
                                    }
                                }
                            },
                            _ => {},
                        }
                    },
                    _ => {},
                }
            }
        }
    }
}

pub(crate) proof fn lemma_parents_frame(
    fuel: nat,
    reg: RegistryView,
    t: TemplateView,
    i: int,
    coll: CollectionView,
    ip: Set<Seq<char>>,
)
    requires
        registry_wf(reg),
    ensures
        match parents_spec(fuel, reg, t, i, coll, ip) {
            Some(BuildOutcome::Done { coll: c2, visiting: ip2 }) => {
                &&& forall|k: Seq<char>|
                    #[trigger] coll.contains_key(k) ==> c2.contains_key(k) && c2[k] == coll[k]
                &&& forall|k: Seq<char>|
                    #[trigger] c2.contains_key(k) && !coll.contains_key(k) ==> reg.contains_key(k)
                        && !ip.contains(k)
                &&& ip.subset_of(ip2)
            },
            _ => true,
        },
    decreases fuel,
{
    if fuel > 0 && i < t.parents.len() {
        let parent = t.parents[i];
        if reg.contains_key(parent) {
            lemma_visit_frame((fuel - 1) as nat, reg, reg[parent], coll, ip);
            let sub = visit_spec((fuel - 1) as nat, reg, reg[parent], coll, ip);
            match sub {
                Some(BuildOutcome::Done { coll: c2, visiting: ip2 }) => {
                    lemma_parents_frame((fuel - 1) as nat, reg, t, i + 1, c2, ip2);
                    match parents_spec((fuel - 1) as nat, reg, t, i + 1, c2, ip2) {
                        Some(BuildOutcome::Done { coll: c3, visiting: ip3 }) => {
                            assert forall|k: Seq<char>|
                                coll.contains_key(k) implies c3.contains_key(k) && c3[k]
                                == coll[k] by {
                                assert(c2.contains_key(k) && c2[k] == coll[k]);
                            }
                            assert forall|k: Seq<char>|
                                c3.contains_key(k) && !coll.contains_key(k) implies
                                reg.contains_key(k) && !ip.contains(k) by {
                                if c2.contains_key(k) {
                                    assert(reg.contains_key(k) && !ip.contains(k));
                                } else {
                                    assert(reg.contains_key(k) && !ip2.contains(k));
                                    assert(!ip.contains(k));
                                }
                            }
                        },
                        _ => {},
                    }
                },
                _ => {},
            }
        }
    }
}

/// The `visit_to` form of [`lemma_visit_frame`].
proof fn lemma_visit_to_frame(
    reg: RegistryView,
    t: TemplateView,
    coll: CollectionView,
    ip: Set<Seq<char>>,
    c2: CollectionView,
    ip2: Set<Seq<char>>,
)
    requires
        registry_wf(reg),
        reg.contains_key(t.name),
        reg[t.name] == t,
        visit_to(reg, t, coll, ip, BuildOutcome::Done { coll: c2, visiting: ip2 }),
    ensures
        forall|k: Seq<char>|
            #[trigger] coll.contains_key(k) ==> c2.contains_key(k) && c2[k] == coll[k],
        forall|k: Seq<char>|
            #[trigger] c2.contains_key(k) && !coll.contains_key(k) ==> reg.contains_key(k)
                && !ip.contains(k),
        ip.subset_of(ip2),
        c2.contains_key(t.name),
{
    let f = choose|f: nat|
        visit_spec(f, reg, t, coll, ip) == Some(BuildOutcome::Done { coll: c2, visiting: ip2 });
    lemma_visit_frame(f, reg, t, coll, ip);
}

/// Collection of all macro templates reachable from one root, queried by
/// `(template, namespace, macro)` triples.
#[derive(Debug)]
pub struct MacroCollection {
    macros: MacroTemplateMap,
}

impl Clone for MacroCollection {
    /// The clone indexes exactly the same namespace maps.
    fn clone(&self) -> (r: Self)
        ensures
            r@ == self@,
    {
        MacroCollection { macros: self.macros.dup() }
    }
}

impl Default for MacroCollection {
    /// An empty collection, ready for `add_macros_from_template`.
    fn default() -> (r: Self)
        ensures
            r@ == Map::<Seq<char>, NamespaceMapView>::empty(),
    {
        MacroCollection::new()
    }
}

impl View for MacroCollection {
    type V = CollectionView;

    closed spec fn view(&self) -> CollectionView {
        self.macros@
    }
}

impl MacroCollection {
    pub fn new() -> (r: MacroCollection)
        ensures
            r@ == Map::<Seq<char>, NamespaceMapView>::empty(),
    {
        MacroCollection { macros: StrMap::new() }
    }

    /// Whether `name` has an index entry of its own.
    pub fn contains_template(&self, name: &str) -> (r: bool)
        ensures
            r == self@.contains_key(name@),
    {
        self.macros.contains_key(name)
    }

    /// How many templates are indexed.
    pub fn len(&self) -> (n: usize)
        ensures
            n == self@.dom().len(),
            self@.dom().finite(),
    {
        self.macros.len()
    }

    /// Walk `template` and everything reachable from it, adding one
    /// namespace map per visited template.  `visiting` holds the names
    /// whose imports are still being processed; meeting one of them again
    /// means the import graph is cyclic.
    fn add_from(
        &mut self,
        registry: &Registry,
        template: &Template,
        visiting: &mut StrSet,
    ) -> (r: Result<(), MacroError>)
        requires
            registry.wf(),
            registry@.contains_key(template@.name),
            registry@[template@.name] == template@,
        ensures
            match r {
                Ok(()) => visit_to(
                    registry@,
                    template@,
                    old(self)@,
                    old(visiting)@,
                    BuildOutcome::Done { coll: final(self)@, visiting: final(visiting)@ },
                ),
                Err(e) => match e@ {
                    MacroErrorView::UnresolvedTemplate { name } => visit_to(
                        registry@,
                        template@,
                        old(self)@,
                        old(visiting)@,
                        BuildOutcome::Unresolved { name },
                    ),
                    MacroErrorView::CyclicImport { name } => visit_to(
                        registry@,
                        template@,
                        old(self)@,
                        old(visiting)@,
                        BuildOutcome::Cyclic { name },
                    ),
                    _ => false,
                },
            },
        decreases
            registry@.dom().difference(old(self)@.dom()).len(),
            registry@.dom().difference(old(self)@.dom()).difference(old(visiting)@).len(),
    {
        let ghost reg = registry@;
        let ghost t = template@;
        let ghost coll0 = self@;
        let ghost ip0 = visiting@;

        if self.macros.contains_key(template.name.as_str()) {
            proof {
                lemma_step_done(reg, t, coll0, ip0);
            }
            return Ok(());
        }
        if visiting.contains(template.name.as_str()) {
            proof {
                lemma_step_cyclic(reg, t, coll0, ip0);
            }
            return Err(MacroError::CyclicImport { name: template.name.clone() });
        }
        visiting.insert(template.name.clone());
        let ghost ip1 = visiting@;

        let mut nm: MacroNamespaceMap = StrMap::new();
        if !template.macros.is_empty() {
            nm.insert(
                "self".to_owned(),
                NamespaceEntry {
                    origin: template.name.clone(),
                    macros: template.macros.dup(),
                },
            );
        }
        proof {
            assert(nm@ =~= self_namespace_map(t));
            assert(nm@ == self_namespace_map(t));
            assert forall|o: BuildOutcome|
                #[trigger] imports_to(reg, t, 0, nm@, self@, visiting@, o) implies visit_to(
                reg,
                t,
                coll0,
                ip0,
                o,
            ) by {
                lemma_step_enter(reg, t, coll0, ip0, o);
            }
        }

        let n = template.imported_macro_files.len();
        let mut i: usize = 0;
        while i < n
            invariant
                registry.wf(),
                reg == registry@,
                t == template@,
                coll0 == old(self)@,
                ip0 == old(visiting)@,
                reg.contains_key(t.name),
                reg[t.name] == t,
                n == template.imported_macro_files@.len(),
                i <= n,
                !ip0.contains(t.name),
                ip1 == ip0.insert(t.name),
                ip1.subset_of(visiting@),
                coll0.dom().subset_of(self@.dom()),
                !self@.contains_key(t.name),
                forall|k: Seq<char>|
                    #[trigger] self@.contains_key(k) && !coll0.contains_key(k)
                        ==> reg.contains_key(k) && !ip0.contains(k) && k != t.name,
                forall|o: BuildOutcome|
                    #[trigger] imports_to(reg, t, i as int, nm@, self@, visiting@, o)
                        ==> visit_to(reg, t, coll0, ip0, o),
            decreases n - i,
        {
            let pair = &template.imported_macro_files[i];
            proof {
                assert(t.imported_macro_files[i as int] == (pair.0@, pair.1@));
            }
            let tpl_opt = registry.get_template(pair.0.as_str());
            match tpl_opt {
                None => {
                    proof {
                        lemma_imports_unresolved(reg, t, i as int, nm@, self@, visiting@);
                    }
                    return Err(MacroError::UnresolvedTemplate { name: pair.0.clone() });
                },
                Some(macro_tpl) => {
                    let ghost nm_a = nm@;
                    let ghost coll_a = self@;
                    let ghost ip_a = visiting@;
                    let origin = pair.0.clone();
                    let namespace = pair.1.clone();
                    nm.insert(
                        namespace,
                        NamespaceEntry { origin, macros: macro_tpl.macros.dup() },
                    );
                    proof {
                        assert(macro_tpl@ == reg[t.imported_macro_files[i as int].0]);
                        assert(macro_tpl@.name == t.imported_macro_files[i as int].0);
                        assert(nm@ == nm_a.insert(
                            t.imported_macro_files[i as int].1,
                            NamespaceEntryView {
                                origin: t.imported_macro_files[i as int].0,
                                macros: reg[t.imported_macro_files[i as int].0].macros,
                            },
                        ));
                        assert(reg.dom().finite());
                        vstd::set_lib::lemma_len_subset(
                            reg.dom().difference(coll0.dom()),
                            reg.dom(),
                        );
                        vstd::set_lib::lemma_len_subset(
                            reg.dom().difference(self@.dom()),
                            reg.dom().difference(coll0.dom()),
                        );
                        vstd::set_lib::lemma_len_subset(
                            reg.dom().difference(coll0.dom()).difference(ip0),
                            reg.dom(),
                        );
                        assert(reg.dom().difference(self@.dom()).difference(visiting@).subset_of(
                            reg.dom().difference(coll0.dom()).difference(ip0),
                        ));
                        assert(reg.dom().difference(coll0.dom()).difference(ip0).contains(t.name));
                        assert(!reg.dom().difference(self@.dom()).difference(visiting@).contains(
                            t.name,
                        ));
                        reg.dom().difference(self@.dom()).difference(visiting@)
                            .lemma_subset_not_in_lt(
                            reg.dom().difference(coll0.dom()).difference(ip0),
                            t.name,
                        );
                    }
                    let res = self.add_from(registry, macro_tpl, visiting);
                    match res {
                        Err(e) => {
                            proof {
                                match e@ {
                                    MacroErrorView::UnresolvedTemplate { name } => {
                                        lemma_imports_sub_err(
                                            reg,
                                            t,
                                            i as int,
                                            nm_a,
                                            coll_a,
                                            ip_a,
                                            BuildOutcome::Unresolved { name },
                                        );
                                    },
                                    MacroErrorView::CyclicImport { name } => {
                                        lemma_imports_sub_err(
                                            reg,
                                            t,
                                            i as int,
                                            nm_a,
                                            coll_a,
                                            ip_a,
                                            BuildOutcome::Cyclic { name },
                                        );
                                    },
                                    _ => {},
                                }
                            }
                            return Err(e);
                        },
                        Ok(()) => {
                            proof {
                                lemma_visit_to_frame(
                                    reg,
                                    macro_tpl@,
                                    coll_a,
                                    ip_a,
                                    self@,
                                    visiting@,
                                );
                                assert forall|o: BuildOutcome|
                                    imports_to(
                                        reg,
                                        t,
                                        i as int + 1,
                                        nm@,
                                        self@,
                                        visiting@,
                                        o,
                                    ) implies visit_to(reg, t, coll0, ip0, o) by {
                                    lemma_imports_sub_done(
                                        reg,
                                        t,
                                        i as int,
                                        nm_a,
                                        coll_a,
                                        ip_a,
                                        self@,
                                        visiting@,
                                        o,
                                    );
                                }
                            }
                        },
                    }
                },
            }
            i = i + 1;
        }

        let ghost coll_b = self@;
        self.macros.insert(template.name.clone(), nm);
        proof {
            assert forall|o: BuildOutcome|
                parents_to(reg, t, 0, self@, visiting@, o) implies visit_to(
                reg,
                t,
                coll0,
                ip0,
                o,
            ) by {
                lemma_imports_finish(reg, t, nm@, coll_b, visiting@, o);
            }
        }

        let m = template.parents.len();
        let mut j: usize = 0;
        while j < m
            invariant
                registry.wf(),
                reg == registry@,
                t == template@,
                coll0 == old(self)@,
                ip0 == old(visiting)@,
                reg.contains_key(t.name),
                reg[t.name] == t,
                m == template.parents@.len(),
                j <= m,
                ip1 == ip0.insert(t.name),
                ip1.subset_of(visiting@),
                coll0.dom().subset_of(self@.dom()),
                self@.contains_key(t.name),
                !coll0.contains_key(t.name),
                forall|k: Seq<char>|
                    #[trigger] self@.contains_key(k) && !coll0.contains_key(k)
                        ==> reg.contains_key(k),
                forall|o: BuildOutcome|
                    #[trigger] parents_to(reg, t, j as int, self@, visiting@, o) ==> visit_to(
                        reg,
                        t,
                        coll0,
                        ip0,
                        o,
                    ),
            decreases m - j,
        {
            let parent = &template.parents[j];
            proof {
                assert(t.parents[j as int] == parent@);
            }
            let tpl_opt = registry.get_template(parent.as_str());
            match tpl_opt {
                None => {
                    proof {
                        lemma_parents_unresolved(reg, t, j as int, self@, visiting@);
                    }
                    return Err(MacroError::UnresolvedTemplate { name: parent.clone() });
                },
                Some(parent_tpl) => {
                    let ghost coll_a = self@;
                    let ghost ip_a = visiting@;
                    proof {
                        assert(parent_tpl@ == reg[t.parents[j as int]]);
                        assert(parent_tpl@.name == t.parents[j as int]);
                        assert(reg.dom().finite());
                        vstd::set_lib::lemma_len_subset(
                            reg.dom().difference(coll0.dom()),
                            reg.dom(),
                        );
                        assert(reg.dom().difference(coll0.dom()).contains(t.name));
                        assert(!reg.dom().difference(self@.dom()).contains(t.name));
                        reg.dom().difference(self@.dom()).lemma_subset_not_in_lt(
                            reg.dom().difference(coll0.dom()),
                            t.name,
                        );
                    }
                    let res = self.add_from(registry, parent_tpl, visiting);
                    match res {
                        Err(e) => {
                            proof {
                                match e@ {
                                    MacroErrorView::UnresolvedTemplate { name } => {
                                        lemma_parents_sub_err(
                                            reg,
                                            t,
                                            j as int,
                                            coll_a,
                                            ip_a,
                                            BuildOutcome::Unresolved { name },
                                        );
                                    },
                                    MacroErrorView::CyclicImport { name } => {
                                        lemma_parents_sub_err(
                                            reg,
                                            t,
                                            j as int,
                                            coll_a,
                                            ip_a,
                                            BuildOutcome::Cyclic { name },
                                        );
                                    },
                                    _ => {},
                                }
                            }
                            return Err(e);
                        },
                        Ok(()) => {
                            proof {
                                lemma_visit_to_frame(
                                    reg,
                                    parent_tpl@,
                                    coll_a,
                                    ip_a,
                                    self@,
                                    visiting@,
                                );
                                assert forall|o: BuildOutcome|
                                    parents_to(reg, t, j as int + 1, self@, visiting@, o) implies
                                    visit_to(reg, t, coll0, ip0, o) by {
                                    lemma_parents_sub_done(
                                        reg,
                                        t,
                                        j as int,
                                        coll_a,
                                        ip_a,
                                        self@,
                                        visiting@,
                                        o,
                                    );
                                }
                            }
                        },
                    }
                },
            }
            j = j + 1;
        }
        proof {
            lemma_parents_done(reg, t, self@, visiting@);
        }
        Ok(())
    }

    /// Add `template` and everything reachable from it to the
    /// collection.  The first failure aborts the whole construction; the
    /// collection is then left partially built and must be discarded.
    pub fn add_macros_from_template(
        &mut self,
        registry: &Registry,
        template: &Template,
    ) -> (r: Result<(), MacroError>)
        requires
            registry.wf(),
            registry@.contains_key(template@.name),
            registry@[template@.name] == template@,
        ensures
            match r {
                Ok(()) => collects_to(registry@, template@, old(self)@, final(self)@),
                Err(e) => collect_fails(registry@, template@, old(self)@, e@),
            },
    {
        let mut visiting = StrSet::new();
        let r = self.add_from(registry, template, &mut visiting);
        proof {
            if r is Ok {
                assert(collects_to(registry@, template@, old(self)@, self@));
            }
        }
        r
    }

    /// Build the collection anchored at root template `tpl`, which must
    /// be held by `registry` under its own name.
    pub fn from_original_template(
        tpl: &Template,
        registry: &Registry,
    ) -> (r: Result<MacroCollection, MacroError>)
        requires
            registry.wf(),
            registry@.contains_key(tpl@.name),
            registry@[tpl@.name] == tpl@,
        ensures
            match r {
                Ok(c) => collects_to(registry@, tpl@, Map::empty(), c@),
                Err(e) => collect_fails(registry@, tpl@, Map::empty(), e@),
            },
    {
        let mut collection = MacroCollection::new();
        match collection.add_macros_from_template(registry, tpl) {
            Ok(()) => Ok(collection),
            Err(e) => Err(e),
        }
    }

    /// Resolve `macro_namespace::macro_name` as seen from
    /// `template_name`: the name of the template the macro physically
    /// comes from, and its definition.  Callers need the origin name to
    /// resolve nested macro calls made from within the returned body.
    pub fn lookup_macro<'a>(
        &'a self,
        template_name: &str,
        macro_namespace: &str,
        macro_name: &str,
    ) -> (r: Result<(&'a str, &'a MacroDefinition), MacroError>)
        ensures
            match r {
                Ok(found) => {
                    &&& self@.contains_key(template_name@)
                    &&& self@[template_name@].contains_key(macro_namespace@)
                    &&& self@[template_name@][macro_namespace@].macros.contains_key(macro_name@)
                    &&& found.0@ == self@[template_name@][macro_namespace@].origin
                    &&& found.1@ == self@[template_name@][macro_namespace@].macros[macro_name@]
                },
                Err(e) => match e@ {
                    MacroErrorView::NamespaceNotFound { namespace, template } => {
                        &&& namespace == macro_namespace@
                        &&& template == template_name@
                        &&& !(self@.contains_key(template_name@)
                            && self@[template_name@].contains_key(macro_namespace@))
                    },
                    MacroErrorView::MacroNotFound { namespace, name, template } => {
                        &&& namespace == macro_namespace@
                        &&& name == macro_name@
                        &&& template == template_name@
                        &&& self@.contains_key(template_name@)
                        &&& self@[template_name@].contains_key(macro_namespace@)
                        &&& !self@[template_name@][macro_namespace@].macros.contains_key(
                            macro_name@,
                        )
                    },
                    _ => false,
                },
            },
    {
        let namespace_map = match self.macros.get(template_name) {
            Some(m) => m,
            None => {
                return Err(
                    MacroError::NamespaceNotFound {
                        namespace: macro_namespace.to_owned(),
                        template: template_name.to_owned(),
                    },
                );
            },
        };
        let entry = match namespace_map.get(macro_namespace) {
            Some(e) => e,
            None => {
                return Err(
                    MacroError::NamespaceNotFound {
                        namespace: macro_namespace.to_owned(),
                        template: template_name.to_owned(),
                    },
                );
            },
        };
        match entry.macros.get(macro_name) {
            Some(definition) => Ok((entry.origin.as_str(), definition)),
            None => Err(
                MacroError::MacroNotFound {
                    namespace: macro_namespace.to_owned(),
                    name: macro_name.to_owned(),
                    template: template_name.to_owned(),
                },
            ),
        }
    }
}

} // verus!
