//! Laws of the collection builder, stated once over the specification
//! interpreter and proved for every registry and every template graph.
//!
//! The central fact is [`lemma_collects_to_props`]: a successfully built
//! collection indexes its root, indexes exactly the templates reachable
//! from the root through imports and inheritance, and gives every
//! indexed template precisely its own namespace map — its `"self"`
//! namespace followed by one entry per import, in declaration order.

use crate::collection::BuildOutcome;
use crate::collection::CollectionView;
use crate::collection::NamespaceEntryView;
use crate::collection::NamespaceMapView;
use crate::collection::RegistryView;
use crate::collection::collects_to;
use crate::collection::imports_spec;
use crate::collection::lemma_collects_to_functional;
use crate::collection::lemma_imports_frame;
use crate::collection::lemma_parents_frame;
use crate::collection::lemma_visit_frame;
use crate::collection::lemma_visit_functional;
use crate::collection::parents_spec;
use crate::collection::self_namespace_map;
use crate::collection::visit_spec;
use crate::collection::visit_to;
use crate::template::TemplateView;
use crate::template::registry_wf;
use vstd::prelude::*;

verus! {

/// The namespace map of `t` after its first `i` imports: the `"self"`
/// namespace, then one entry per import; a later import with the same
/// alias wins.
pub open spec fn namespace_map_prefix(reg: RegistryView, t: TemplateView, i: int) -> NamespaceMapView
    decreases i,
{
    if i <= 0 {
        self_namespace_map(t)
    } else {
        namespace_map_prefix(reg, t, i - 1).insert(
            t.imported_macro_files[i - 1].1,
            NamespaceEntryView {
                origin: t.imported_macro_files[i - 1].0,
                macros: reg[t.imported_macro_files[i - 1].0].macros,
            },
        )
    }
}

/// The full namespace map a collection records for `t`.
pub open spec fn namespace_map_of(reg: RegistryView, t: TemplateView) -> NamespaceMapView {
    namespace_map_prefix(reg, t, t.imported_macro_files.len() as int)
}

/// `t` references `n` directly: by a macro import or as a parent.
pub open spec fn edge_to(t: TemplateView, n: Seq<char>) -> bool {
    (exists|i: int|
        0 <= i < t.imported_macro_files.len() && t.imported_macro_files[i].0 == n) || (exists|
        i: int,
    |
        0 <= i < t.parents.len() && t.parents[i] == n)
}

/// `path` walks from `from` to `to` along import or inheritance edges,
/// resolving every intermediate name through the registry.
pub open spec fn is_link_path(
    reg: RegistryView,
    path: Seq<Seq<char>>,
    from: Seq<char>,
    to: Seq<char>,
) -> bool {
    &&& path.len() >= 1
    &&& path[0] == from
    &&& path[path.len() - 1] == to
    &&& forall|i: int|
        0 <= i < path.len() - 1 ==> reg.contains_key(#[trigger] path[i]) && edge_to(
            reg[path[i]],
            path[i + 1],
        )
}

/// `to` is reachable from `from` through imports and inheritance.
pub open spec fn reachable(reg: RegistryView, from: Seq<char>, to: Seq<char>) -> bool {
    exists|path: Seq<Seq<char>>| is_link_path(reg, path, from, to)
}

proof fn lemma_reachable_refl(reg: RegistryView, n: Seq<char>)
    ensures
        reachable(reg, n, n),
{
    let path = seq![n];
    assert(is_link_path(reg, path, n, n));
}

proof fn lemma_reachable_step(reg: RegistryView, a: Seq<char>, b: Seq<char>, k: Seq<char>)
    requires
        reg.contains_key(a),
        edge_to(reg[a], b),
        reachable(reg, b, k),
    ensures
        reachable(reg, a, k),
{
    let path = choose|path: Seq<Seq<char>>| is_link_path(reg, path, b, k);
    let path2 = seq![a] + path;
    assert(path2[0] == a);
    assert(path2.len() == path.len() + 1);
    assert(path2[path2.len() - 1] == path[path.len() - 1]);
    assert forall|i: int|
        0 <= i < path2.len() - 1 implies reg.contains_key(#[trigger] path2[i]) && edge_to(
        reg[path2[i]],
        path2[i + 1],
    ) by {
        if i == 0 {
            assert(path2[1] == path[0]);
        } else {
            assert(path2[i] == path[i - 1]);
            assert(path2[i + 1] == path[i]);
        }
    }
    assert(is_link_path(reg, path2, a, k));
}

/// What a collection records for indexed template `k`: exactly `k`'s own
/// namespace map, with every imported file resolvable and indexed too.
pub open spec fn entry_wf(reg: RegistryView, coll: CollectionView, k: Seq<char>) -> bool {
    &&& reg.contains_key(k)
    &&& coll[k] == namespace_map_of(reg, reg[k])
    &&& forall|j: int|
        0 <= j < reg[k].imported_macro_files.len() ==> reg.contains_key(
            (#[trigger] reg[k].imported_macro_files[j]).0,
        ) && coll.contains_key(reg[k].imported_macro_files[j].0)
}

/// Every indexed template satisfies [`entry_wf`].
pub open spec fn good_coll(reg: RegistryView, coll: CollectionView) -> bool {
    forall|k: Seq<char>| #[trigger] coll.contains_key(k) ==> entry_wf(reg, coll, k)
}

/// Every parent of indexed template `k` is indexed as well.
pub open spec fn parents_indexed(reg: RegistryView, coll: CollectionView, k: Seq<char>) -> bool {
    forall|j: int|
        0 <= j < reg[k].parents.len() ==> coll.contains_key(#[trigger] reg[k].parents[j])
}

proof fn lemma_visit_good(
    fuel: nat,
    reg: RegistryView,
    t: TemplateView,
    coll: CollectionView,
    ip: Set<Seq<char>>,
)
    requires
        registry_wf(reg),
        reg.contains_key(t.name),
        reg[t.name] == t,
        good_coll(reg, coll),
    ensures
        match visit_spec(fuel, reg, t, coll, ip) {
            Some(BuildOutcome::Done { coll: c2, visiting: ip2 }) => {
                &&& good_coll(reg, c2)
                &&& forall|k: Seq<char>|
                    #[trigger] c2.contains_key(k) && !coll.contains_key(k) ==> reachable(
                        reg,
                        t.name,
                        k,
                    ) && parents_indexed(reg, c2, k)
            },
            _ => true,
        },
    decreases fuel,
{
    if fuel > 0 && !coll.contains_key(t.name) && !ip.contains(t.name) {
        lemma_imports_good(
            (fuel - 1) as nat,
            reg,
            t,
            0,
            self_namespace_map(t),
            coll,
            ip.insert(t.name),
        );
    }
}

proof fn lemma_imports_good(
    fuel: nat,
    reg: RegistryView,
    t: TemplateView,
    i: int,
    nm: NamespaceMapView,
    coll: CollectionView,
    ip: Set<Seq<char>>,
)
    requires
        registry_wf(reg),
        reg.contains_key(t.name),
        reg[t.name] == t,
        good_coll(reg, coll),
        !coll.contains_key(t.name),
        ip.contains(t.name),
        0 <= i <= t.imported_macro_files.len(),
        nm == namespace_map_prefix(reg, t, i),
        forall|j: int|
            0 <= j < i ==> reg.contains_key((#[trigger] t.imported_macro_files[j]).0)
                && coll.contains_key(t.imported_macro_files[j].0),
    ensures
        match imports_spec(fuel, reg, t, i, nm, coll, ip) {
            Some(BuildOutcome::Done { coll: c2, visiting: ip2 }) => {
                &&& good_coll(reg, c2)
                &&& forall|k: Seq<char>|
                    #[trigger] c2.contains_key(k) && !coll.contains_key(k) ==> reachable(
                        reg,
                        t.name,
                        k,
                    ) && parents_indexed(reg, c2, k)
            },
            _ => true,
        },
    decreases fuel,
{
    if fuel > 0 {
        if i >= t.imported_macro_files.len() {
            let coll1 = coll.insert(t.name, nm);
            assert(good_coll(reg, coll1)) by {
                assert forall|k: Seq<char>| #[trigger] coll1.contains_key(k) implies entry_wf(
                    reg,
                    coll1,
                    k,
                ) by {
                    if k == t.name {
                        assert(coll1[t.name] == namespace_map_of(reg, reg[t.name]));
                    } else {
                        assert(coll.contains_key(k));
                        assert(entry_wf(reg, coll, k));
                        assert(coll1[k] == coll[k]);
                    }
                }
            }
            lemma_parents_good((fuel - 1) as nat, reg, t, 0, coll1, ip);
            lemma_parents_frame((fuel - 1) as nat, reg, t, 0, coll1, ip);
            match parents_spec((fuel - 1) as nat, reg, t, 0, coll1, ip) {
                Some(BuildOutcome::Done { coll: c2, visiting: ip2 }) => {
                    assert forall|k: Seq<char>|
                        #[trigger] c2.contains_key(k) && !coll.contains_key(k) implies reachable(
                        reg,
                        t.name,
                        k,
                    ) && parents_indexed(reg, c2, k) by {
                        if k == t.name {
                            lemma_reachable_refl(reg, t.name);
                        } else {
                            assert(!coll1.contains_key(k));
                        }
                    }
                },
                _ => {},
            }
        } else {
            let filename = t.imported_macro_files[i].0;
            let alias = t.imported_macro_files[i].1;
            if reg.contains_key(filename) {
                lemma_visit_good((fuel - 1) as nat, reg, reg[filename], coll, ip);
                lemma_visit_frame((fuel - 1) as nat, reg, reg[filename], coll, ip);
                let sub = visit_spec((fuel - 1) as nat, reg, reg[filename], coll, ip);
                match sub {
                    Some(BuildOutcome::Done { coll: c2, visiting: ip2 }) => {
                        let nm2 = nm.insert(
                            alias,
                            NamespaceEntryView { origin: filename, macros: reg[filename].macros },
                        );
                        assert(nm2 == namespace_map_prefix(reg, t, i + 1));
                        assert(!c2.contains_key(t.name));
                        assert(c2.contains_key(filename));
                        assert forall|j: int|
                            0 <= j < i + 1 implies reg.contains_key(
                            (#[trigger] t.imported_macro_files[j]).0,
                        ) && c2.contains_key(t.imported_macro_files[j].0) by {
                            if j < i {
                                assert(coll.contains_key(t.imported_macro_files[j].0));
                            }
                        }
                        lemma_imports_good((fuel - 1) as nat, reg, t, i + 1, nm2, c2, ip2);
                        lemma_imports_frame((fuel - 1) as nat, reg, t, i + 1, nm2, c2, ip2);
                        match imports_spec((fuel - 1) as nat, reg, t, i + 1, nm2, c2, ip2) {
                            Some(BuildOutcome::Done { coll: c3, visiting: ip3 }) => {
                                assert forall|k: Seq<char>|
                                    #[trigger] c3.contains_key(k) && !coll.contains_key(k) implies
                                    reachable(reg, t.name, k) && parents_indexed(reg, c3, k) by {
                                    if c2.contains_key(k) {
                                        assert(reachable(reg, filename, k));
                                        assert(edge_to(t, filename));
                                        lemma_reachable_step(reg, t.name, filename, k);
                                        assert(parents_indexed(reg, c2, k));
                                        assert forall|j: int|
                                            0 <= j < reg[k].parents.len() implies c3.contains_key(
                                            #[trigger] reg[k].parents[j],
                                        ) by {
                                            assert(c2.contains_key(reg[k].parents[j]));
                                        }
                                    }
                                }
                            },
                            _ => {},
                        }
                    },
                    _ => {},
                }
            }
        }
    }
}

proof fn lemma_parents_good(
    fuel: nat,
    reg: RegistryView,
    t: TemplateView,
    i: int,
    coll: CollectionView,
    ip: Set<Seq<char>>,
)
    requires
        registry_wf(reg),
        reg.contains_key(t.name),
        reg[t.name] == t,
        good_coll(reg, coll),
        0 <= i <= t.parents.len(),
        forall|j: int| 0 <= j < i ==> coll.contains_key(#[trigger] t.parents[j]),
    ensures
        match parents_spec(fuel, reg, t, i, coll, ip) {
            Some(BuildOutcome::Done { coll: c2, visiting: ip2 }) => {
                &&& good_coll(reg, c2)
                &&& forall|k: Seq<char>|
                    #[trigger] c2.contains_key(k) && !coll.contains_key(k) ==> reachable(
                        reg,
                        t.name,
                        k,
                    ) && parents_indexed(reg, c2, k)
                &&& forall|j: int| 0 <= j < t.parents.len() ==> c2.contains_key(#[trigger] t.parents[j])
            },
            _ => true,
        },
    decreases fuel,
{
    if fuel > 0 && i < t.parents.len() {
        let parent = t.parents[i];
        if reg.contains_key(parent) {
            lemma_visit_good((fuel - 1) as nat, reg, reg[parent], coll, ip);
            lemma_visit_frame((fuel - 1) as nat, reg, reg[parent], coll, ip);
            let sub = visit_spec((fuel - 1) as nat, reg, reg[parent], coll, ip);
            match sub {
                Some(BuildOutcome::Done { coll: c2, visiting: ip2 }) => {
                    assert(c2.contains_key(parent));
                    assert forall|j: int| 0 <= j < i + 1 implies c2.contains_key(
                        #[trigger] t.parents[j],
                    ) by {
                        if j < i {
                            assert(coll.contains_key(t.parents[j]));
                        }
                    }
                    lemma_parents_good((fuel - 1) as nat, reg, t, i + 1, c2, ip2);
                    lemma_parents_frame((fuel - 1) as nat, reg, t, i + 1, c2, ip2);
                    match parents_spec((fuel - 1) as nat, reg, t, i + 1, c2, ip2) {
                        Some(BuildOutcome::Done { coll: c3, visiting: ip3 }) => {
                            assert forall|k: Seq<char>|
                                #[trigger] c3.contains_key(k) && !coll.contains_key(k) implies
                                reachable(reg, t.name, k) && parents_indexed(reg, c3, k) by {
                                if c2.contains_key(k) {
                                    assert(reachable(reg, parent, k));
                                    assert(edge_to(t, parent));
                                    lemma_reachable_step(reg, t.name, parent, k);
                                    assert(parents_indexed(reg, c2, k));
                                    assert forall|j: int|
                                        0 <= j < reg[k].parents.len() implies c3.contains_key(
                                        #[trigger] reg[k].parents[j],
                                    ) by {
                                        assert(c2.contains_key(reg[k].parents[j]));
                                    }
                                }
                            }
                        },
                        _ => {},
                    }
                },
                _ => {},
            }
        }
    }
}

/// What holds of every successfully built collection: the root is
/// indexed; every indexed template's record is exactly its own namespace
/// map, with its imports and parents indexed alongside it; and nothing
/// outside the part of the graph reachable from the root is indexed.
pub proof fn lemma_collects_to_props(reg: RegistryView, t: TemplateView, coll: CollectionView)
    requires
        registry_wf(reg),
        reg.contains_key(t.name),
        reg[t.name] == t,
        collects_to(reg, t, Map::empty(), coll),
    ensures
        coll.contains_key(t.name),
        good_coll(reg, coll),
        forall|k: Seq<char>|
            #[trigger] coll.contains_key(k) ==> reachable(reg, t.name, k) && parents_indexed(
                reg,
                coll,
                k,
            ),
{
    let ip2 = choose|ip: Set<Seq<char>>|
        visit_to(reg, t, Map::empty(), Set::empty(), BuildOutcome::Done { coll, visiting: ip });
    let f = choose|f: nat|
        visit_spec(f, reg, t, Map::empty(), Set::empty()) == Some(
            BuildOutcome::Done { coll, visiting: ip2 },
        );
    lemma_visit_frame(f, reg, t, Map::empty(), Set::empty());
    lemma_visit_good(f, reg, t, Map::empty(), Set::empty());
    assert(good_coll(reg, Map::<Seq<char>, NamespaceMapView>::empty()));
}

/// A template with no imports and no parents yields a collection with
/// exactly one entry: its own namespace map, which holds its macros
/// under `"self"` when it declares any and is empty otherwise.
pub proof fn lemma_isolated_template(reg: RegistryView, t: TemplateView, coll: CollectionView)
    requires
        registry_wf(reg),
        reg.contains_key(t.name),
        reg[t.name] == t,
        t.imported_macro_files.len() == 0,
        t.parents.len() == 0,
        collects_to(reg, t, Map::empty(), coll),
    ensures
        coll == Map::<Seq<char>, NamespaceMapView>::empty().insert(t.name, self_namespace_map(t)),
{
    lemma_collects_to_props(reg, t, coll);
    assert forall|k: Seq<char>| #[trigger] coll.contains_key(k) implies k == t.name by {
        let path = choose|path: Seq<Seq<char>>| is_link_path(reg, path, t.name, k);
        if path.len() >= 2 {
            assert(reg.contains_key(path[0]) && edge_to(reg[path[0]], path[1]));
            assert(!edge_to(t, path[1]));
        }
    }
    assert(coll[t.name] == namespace_map_of(reg, t));
    assert(namespace_map_of(reg, t) == self_namespace_map(t));
    assert(coll =~= Map::<Seq<char>, NamespaceMapView>::empty().insert(
        t.name,
        self_namespace_map(t),
    ));
}

proof fn lemma_prefix_alias(reg: RegistryView, t: TemplateView, i: int, n: int)
    requires
        0 <= i < n <= t.imported_macro_files.len(),
        forall|j: int|
            i < j < n ==> (#[trigger] t.imported_macro_files[j]).1 != t.imported_macro_files[i].1,
    ensures
        namespace_map_prefix(reg, t, n).contains_key(t.imported_macro_files[i].1),
        namespace_map_prefix(reg, t, n)[t.imported_macro_files[i].1] == (NamespaceEntryView {
            origin: t.imported_macro_files[i].0,
            macros: reg[t.imported_macro_files[i].0].macros,
        }),
    decreases n,
{
    if n == i + 1 {
    } else {
        lemma_prefix_alias(reg, t, i, n - 1);
        assert(t.imported_macro_files[n - 1].1 != t.imported_macro_files[i].1);
    }
}

/// A template `t` importing file `F` under an alias resolves that alias
/// to `F`'s own macros under `F`'s name — so looking any of `F`'s macros
/// up through the alias yields `F` and the definition `F` declares — and
/// `F` itself is indexed at top level in the same collection.  The alias
/// must not be re-bound by a later import of `t`.
pub proof fn lemma_import_resolves(
    reg: RegistryView,
    t: TemplateView,
    coll: CollectionView,
    i: int,
)
    requires
        registry_wf(reg),
        reg.contains_key(t.name),
        reg[t.name] == t,
        collects_to(reg, t, Map::empty(), coll),
        0 <= i < t.imported_macro_files.len(),
        forall|j: int|
            i < j < t.imported_macro_files.len() ==> (#[trigger] t.imported_macro_files[j]).1
                != t.imported_macro_files[i].1,
    ensures
        reg.contains_key(t.imported_macro_files[i].0),
        coll.contains_key(t.name),
        coll[t.name].contains_key(t.imported_macro_files[i].1),
        coll[t.name][t.imported_macro_files[i].1] == (NamespaceEntryView {
            origin: t.imported_macro_files[i].0,
            macros: reg[t.imported_macro_files[i].0].macros,
        }),
        coll.contains_key(t.imported_macro_files[i].0),
{
    lemma_collects_to_props(reg, t, coll);
    assert(entry_wf(reg, coll, t.name));
    assert(coll[t.name] == namespace_map_of(reg, t));
    lemma_prefix_alias(reg, t, i, t.imported_macro_files.len() as int);
}

/// Re-visiting an already indexed template is a no-op: the only outcome
/// such a visit can have returns the collection unchanged, so redundant
/// reachability — as in a diamond-shaped import graph — neither alters
/// nor duplicates the shared template's namespace map.
pub proof fn lemma_revisit_is_noop(
    reg: RegistryView,
    t: TemplateView,
    coll: CollectionView,
    ip: Set<Seq<char>>,
    o: BuildOutcome,
)
    requires
        coll.contains_key(t.name),
        visit_to(reg, t, coll, ip, o),
    ensures
        o == (BuildOutcome::Done { coll, visiting: ip }),
{
    assert(visit_spec(1, reg, t, coll, ip) == Some(BuildOutcome::Done { coll, visiting: ip }));
    lemma_visit_functional(reg, t, coll, ip, o, BuildOutcome::Done { coll, visiting: ip });
}

/// Inheritance adds no macros: a child with no imports of its own still
/// has every parent indexed on its own behalf, while the child's own
/// namespace map holds nothing beyond what the child itself declares.
pub proof fn lemma_inheritance_isolation(reg: RegistryView, t: TemplateView, coll: CollectionView)
    requires
        registry_wf(reg),
        reg.contains_key(t.name),
        reg[t.name] == t,
        t.imported_macro_files.len() == 0,
        collects_to(reg, t, Map::empty(), coll),
    ensures
        forall|j: int| 0 <= j < t.parents.len() ==> coll.contains_key(#[trigger] t.parents[j]),
        coll.contains_key(t.name),
        coll[t.name] == self_namespace_map(t),
{
    lemma_collects_to_props(reg, t, coll);
    assert(parents_indexed(reg, coll, t.name));
    assert(entry_wf(reg, coll, t.name));
    assert(namespace_map_of(reg, t) == self_namespace_map(t));
}

/// Determinism: two collections built from the same root over the same
/// registry carry identical key sets and identical namespace maps.
pub proof fn lemma_build_deterministic(
    reg: RegistryView,
    t: TemplateView,
    c1: CollectionView,
    c2: CollectionView,
)
    requires
        collects_to(reg, t, Map::empty(), c1),
        collects_to(reg, t, Map::empty(), c2),
    ensures
        c1 == c2,
{
    lemma_collects_to_functional(reg, t, Map::empty(), c1, c2);
}

} // verus!
