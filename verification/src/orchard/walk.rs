//! Growing is a walk over the rows: what the rows give one after the other is
//! what generating gives at once.

use crate::config::Config;
use crate::engine::{enabled_before, gather_valid, places, GatheringView};
use crate::exec::ExecSetView;
use crate::orchard::{planted_execs, planted_services, trees_of};
use crate::orchdi::{find_enabled, gate_of, gates_of, law_found_is_enabled};
use crate::platform::launchd::{gates_for, launchd_artifacts, spec_for, specs_for};
use crate::platform::orchdi::{all_specs, orchdi_artifacts};
use crate::platform::systemd::generate::{law_ready_gates, ready_set};
use crate::platform::systemd::{gate_artifacts, systemd_artifacts, unit_artifacts};
use crate::platform::{generated, generated_specs, Host};
use crate::types::ServiceView;
use vstd::prelude::*;

verus! {

/// Whether places name enabled services, in ascending order.
pub open spec fn picks(services: Seq<ServiceView>, kept: Seq<usize>) -> bool {
    &&& forall|i: int|
        0 <= i < kept.len() ==> (#[trigger] kept[i]) < services.len()
            && !services[kept[i] as int].disabled
    &&& forall|i: int, j: int|
        0 <= i < j < kept.len() ==> (#[trigger] kept[i]) < (#[trigger] kept[j])
}

/// The services at places.
pub open spec fn picked(services: Seq<ServiceView>, kept: Seq<usize>) -> Seq<ServiceView> {
    kept.map_values(|k: usize| services[k as int])
}

/// Whether a service waits for another to be ready: it depends on one with a
/// healthcheck, or requires one that runs once.
pub open spec fn awaits(a: ServiceView, b: ServiceView) -> bool {
    a.depends_on(b.name) && b.healthcheck is Some || a.requires.contains(b.name) && b.oneshot
}

/// Whether one of the services at places depends on a name.
pub open spec fn kept_depends_on(
    services: Seq<ServiceView>,
    kept: Seq<usize>,
    name: Seq<char>,
) -> bool {
    exists|k: int|
        0 <= k < kept.len() && services[(#[trigger] kept[k]) as int].depends_on(name)
}

/// Whether a service can be left out without a trace: its name is its own,
/// unless it is disabled and has no healthcheck; and if it is enabled, no
/// service waits for it, and what it would wait for others depend on as well.
pub open spec fn stands_alone(services: Seq<ServiceView>, kept: Seq<usize>, i: int) -> bool {
    let s = services[i];
    &&& s.disabled && s.healthcheck is None || forall|j: int|
        0 <= j < services.len() && j != i ==> (#[trigger] services[j]).name != s.name
    &&& s.disabled || forall|j: int|
        0 <= j < services.len() && !(#[trigger] services[j]).disabled ==> {
            &&& !awaits(services[j], s)
            &&& s.depends_on(services[j].name) && services[j].healthcheck is Some
                ==> kept_depends_on(services, kept, services[j].name)
        }
}

/// Whether every service that is not at the places can be left out.
pub open spec fn rest_stands_alone(services: Seq<ServiceView>, kept: Seq<usize>) -> bool {
    forall|i: int|
        #![trigger services[i]]
        0 <= i < services.len() && !kept.contains(i as usize) ==> stands_alone(services, kept, i)
}

proof fn lemma_same_ready_set(services: Seq<ServiceView>, kept: Seq<usize>)
    requires
        services.len() <= usize::MAX,
        picks(services, kept),
        rest_stands_alone(services, kept),
    ensures
        ready_set(services) == ready_set(picked(services, kept)),
{
    let some = picked(services, kept);
    assert forall|name: Seq<char>| ready_set(services).contains(name) == ready_set(some).contains(
        name,
    ) by {
        law_ready_gates(services, name);
        law_ready_gates(some, name);
        if ready_set(services).contains(name) {
            let i = choose|i: int|
                0 <= i < services.len() && (#[trigger] services[i]).name == name
                    && !services[i].disabled && services[i].healthcheck is Some;
            let d = choose|d: int|
                0 <= d < services.len() && !(#[trigger] services[d]).disabled
                    && services[d].depends_on(name);
            if !kept.contains(i as usize) {
                assert(stands_alone(services, kept, i));
                assert(awaits(services[d], services[i]));
            }
            let p = choose|p: int| 0 <= p < kept.len() && kept[p] == i as usize;
            assert(some[p] == services[i]);
            if kept.contains(d as usize) {
                let q = choose|q: int| 0 <= q < kept.len() && kept[q] == d as usize;
                assert(some[q] == services[d]);
                assert(!some[q].disabled && some[q].depends_on(name));
            } else {
                assert(stands_alone(services, kept, d));
                assert(kept_depends_on(services, kept, services[i].name));
                let q = choose|q: int|
                    0 <= q < kept.len() && services[(#[trigger] kept[q]) as int].depends_on(name);
                assert(!some[q].disabled && some[q].depends_on(name));
            }
            assert(some[p].name == name && !some[p].disabled && some[p].healthcheck is Some);
            assert(ready_set(some).contains(name));
        }
        if ready_set(some).contains(name) {
            let p = choose|p: int|
                0 <= p < some.len() && (#[trigger] some[p]).name == name && !some[p].disabled
                    && some[p].healthcheck is Some;
            let q = choose|q: int|
                0 <= q < some.len() && !(#[trigger] some[q]).disabled && some[q].depends_on(name);
            let i = kept[p] as int;
            let d = kept[q] as int;
            assert(services[i].name == name && !services[i].disabled
                && services[i].healthcheck is Some);
            assert(!services[d].disabled && services[d].depends_on(name));
            assert(ready_set(services).contains(name));
        }
    }
    assert(ready_set(services) =~= ready_set(some));
}

/// The ready gates of the first `n` services are those of the first `c` that are
/// kept, where these are the kept ones before `n`.
proof fn lemma_same_gate_artifacts(
    services: Seq<ServiceView>,
    kept: Seq<usize>,
    config: &Config,
    n: int,
    c: int,
)
    requires
        services.len() <= usize::MAX,
        picks(services, kept),
        rest_stands_alone(services, kept),
        0 <= n <= services.len(),
        0 <= c <= kept.len(),
        forall|i: int| 0 <= i < c ==> (#[trigger] kept[i]) < n,
        forall|i: int| c <= i < kept.len() ==> n <= (#[trigger] kept[i]),
    ensures
        gate_artifacts(services.take(n), config, ready_set(services)) == gate_artifacts(
            picked(services, kept).take(c),
            config,
            ready_set(services),
        ),
    decreases n,
{
    let gates = ready_set(services);
    let some = picked(services, kept);
    if n > 0 {
        let s = services[n - 1];
        assert(services.take(n).drop_last() =~= services.take(n - 1));
        assert(services.take(n).last() == s);
        if c > 0 && kept[c - 1] == n - 1 {
            lemma_same_gate_artifacts(services, kept, config, n - 1, c - 1);
            assert(some.take(c).drop_last() =~= some.take(c - 1));
            assert(some.take(c).last() == s);
        } else {
            assert(!kept.contains((n - 1) as usize)) by {
                if kept.contains((n - 1) as usize) {
                    let i = choose|i: int| 0 <= i < kept.len() && kept[i] == (n - 1) as usize;
                    assert(i < c);
                    if i < c - 1 {
                        assert(kept[i] < kept[c - 1]);
                    }
                }
            }
            assert(stands_alone(services, kept, n - 1));
            if gates.contains(s.name) && s.healthcheck is Some {
                law_ready_gates(services, s.name);
                let d = choose|d: int|
                    0 <= d < services.len() && !(#[trigger] services[d]).disabled
                        && services[d].depends_on(s.name);
                let i = choose|i: int|
                    0 <= i < services.len() && (#[trigger] services[i]).name == s.name
                        && !services[i].disabled && services[i].healthcheck is Some;
                if s.disabled {
                    assert(services[i].name == s.name && i != n - 1);
                } else {
                    assert(awaits(services[d], s));
                }
                assert(false);
            }
            lemma_same_gate_artifacts(services, kept, config, n - 1, c);
        }
    } else {
        assert(services.take(0).len() == 0);
        assert(c == 0) by {
            if c > 0 {
                assert(kept[0] < 0);
            }
        }
        assert(some.take(0).len() == 0);
    }
}

/// Looking a name up from `from` on gives what looking it up among the kept ones
/// from there on gives, or a service that is left out.
proof fn lemma_lookup(
    services: Seq<ServiceView>,
    kept: Seq<usize>,
    name: Seq<char>,
    from: int,
    c: int,
)
    requires
        services.len() <= usize::MAX,
        picks(services, kept),
        rest_stands_alone(services, kept),
        0 <= from <= services.len(),
        0 <= c <= kept.len(),
        forall|i: int| 0 <= i < c ==> (#[trigger] kept[i]) < from,
        forall|i: int| c <= i < kept.len() ==> from <= (#[trigger] kept[i]),
    ensures
        ({
            let here = find_enabled(services.skip(from), name);
            let there = find_enabled(picked(services, kept).skip(c), name);
            here == there || there is None && exists|i: int|
                0 <= i < services.len() && here == Some(#[trigger] services[i]) && !kept.contains(
                    i as usize,
                ) && !services[i].disabled && services[i].name == name
        }),
    decreases services.len() - from,
{
    let some = picked(services, kept);
    let rest = services.skip(from);
    if from < services.len() {
        let s = services[from];
        assert(rest[0] == s);
        assert(rest.skip(1) =~= services.skip(from + 1));
        if c < kept.len() && kept[c] == from {
            assert(some.skip(c)[0] == s);
            assert(some.skip(c).skip(1) =~= some.skip(c + 1));
            lemma_lookup(services, kept, name, from + 1, c + 1);
        } else {
            assert(!kept.contains(from as usize)) by {
                if kept.contains(from as usize) {
                    let i = choose|i: int| 0 <= i < kept.len() && kept[i] == from as usize;
                    assert(c <= i);
                    if c < i {
                        assert(kept[c] < kept[i]);
                    }
                }
            }
            assert(stands_alone(services, kept, from));
            lemma_lookup(services, kept, name, from + 1, c);
            if s.name == name && !s.disabled {
                assert(find_enabled(rest, name) == Some(services[from]));
                law_found_is_enabled(some.skip(c), name);
                if find_enabled(some.skip(c), name) is Some {
                    let t = find_enabled(some.skip(c), name)->0;
                    let p = choose|p: int| 0 <= p < some.skip(c).len() && some.skip(c)[p] == t;
                    let j = kept[c + p] as int;
                    assert(services[j] == t);
                    assert(services[j].name == s.name && j != from);
                }
            }
        }
    } else {
        assert(rest.len() == 0);
        assert(c == kept.len()) by {
            if c < kept.len() {
                assert(from <= kept[c]);
            }
        }
        assert(some.skip(c).len() == 0);
    }
}

proof fn lemma_same_gates_of(
    state_dir: Seq<char>,
    namespace: Seq<char>,
    services: Seq<ServiceView>,
    kept: Seq<usize>,
    p: int,
    names: Seq<Seq<char>>,
    required: bool,
)
    requires
        services.len() <= usize::MAX,
        picks(services, kept),
        rest_stands_alone(services, kept),
        0 <= p < kept.len(),
        forall|name: Seq<char>| #[trigger]
            names.contains(name) ==> if required {
                services[kept[p] as int].requires.contains(name)
            } else {
                services[kept[p] as int].after.contains(name)
            },
    ensures
        gates_of(state_dir, namespace, services, names, required) == gates_of(
            state_dir,
            namespace,
            picked(services, kept),
            names,
            required,
        ),
    decreases names.len(),
{
    if names.len() > 0 {
        let some = picked(services, kept);
        let init = names.drop_last();
        let name = names.last();
        assert forall|n: Seq<char>| #[trigger] init.contains(n) implies names.contains(n) by {
            let k = choose|k: int| 0 <= k < init.len() && init[k] == n;
            assert(names[k] == n);
        }
        lemma_same_gates_of(state_dir, namespace, services, kept, p, init, required);
        assert(names[names.len() - 1] == name);
        assert(names.contains(name));
        lemma_lookup(services, kept, name, 0, 0);
        assert(services.skip(0) =~= services);
        assert(some.skip(0) =~= some);
        if find_enabled(services, name) != find_enabled(some, name) {
            let i = choose|i: int|
                0 <= i < services.len() && find_enabled(services, name) == Some(
                    #[trigger] services[i],
                ) && !kept.contains(i as usize) && !services[i].disabled && services[i].name == name;
            assert(stands_alone(services, kept, i));
            let a = kept[p] as int;
            assert(!services[a].disabled);
            assert(!awaits(services[a], services[i]));
        }
        assert(gate_of(state_dir, namespace, services, name, required) == gate_of(
            state_dir,
            namespace,
            some,
            name,
            required,
        ));
    }
}

proof fn lemma_same_gates(services: Seq<ServiceView>, kept: Seq<usize>, p: int, config: &Config)
    requires
        services.len() <= usize::MAX,
        picks(services, kept),
        rest_stands_alone(services, kept),
        0 <= p < kept.len(),
    ensures
        gates_for(services, services[kept[p] as int], config) == gates_for(
            picked(services, kept),
            services[kept[p] as int],
            config,
        ),
{
    let dir = config.state_dir@;
    let ns = config.namespace@;
    let s = services[kept[p] as int];
    lemma_same_gates_of(dir, ns, services, kept, p, s.requires, true);
    lemma_same_gates_of(dir, ns, services, kept, p, s.after, false);
}

/// Whether commands by places of all services are those by places of the kept
/// ones.
pub open spec fn renumbered(
    exec_sets: Seq<(usize, ExecSetView)>,
    kept: Seq<usize>,
    execs: Seq<(usize, ExecSetView)>,
) -> bool {
    &&& exec_sets.len() == execs.len()
    &&& forall|i: int|
        #![trigger exec_sets[i]]
        #![trigger execs[i]]
        0 <= i < exec_sets.len() ==> exec_sets[i].1 == execs[i].1 && execs[i].0 < kept.len()
            && exec_sets[i].0 == kept[execs[i].0 as int]
}

proof fn lemma_same_launchd(
    services: Seq<ServiceView>,
    kept: Seq<usize>,
    exec_sets: Seq<(usize, ExecSetView)>,
    execs: Seq<(usize, ExecSetView)>,
    config: &Config,
    host: &Host,
    texts: Seq<Seq<char>>,
)
    requires
        services.len() <= usize::MAX,
        picks(services, kept),
        rest_stands_alone(services, kept),
        renumbered(exec_sets, kept, execs),
    ensures
        specs_for(services, exec_sets, config) == specs_for(picked(services, kept), execs, config),
        launchd_artifacts(services, exec_sets, config, host, texts) == launchd_artifacts(
            picked(services, kept),
            execs,
            config,
            host,
            texts,
        ),
    decreases exec_sets.len(),
{
    let some = picked(services, kept);
    if exec_sets.len() > 0 {
        let last = exec_sets.len() - 1;
        assert(exec_sets[last].1 == execs[last].1);
        let a = exec_sets.drop_last();
        let b = execs.drop_last();
        assert(renumbered(a, kept, b)) by {
            assert forall|i: int|
                #![trigger a[i]]
                #![trigger b[i]]
                0 <= i < a.len() implies a[i].1 == b[i].1 && b[i].0 < kept.len() && a[i].0
                == kept[b[i].0 as int] by {
                assert(a[i] == exec_sets[i] && b[i] == execs[i]);
            }
        }
        lemma_same_launchd(services, kept, a, b, config, host, texts);
        lemma_same_gates(services, kept, execs[last].0 as int, config);
        assert(spec_for(services, exec_sets.last(), config) == spec_for(
            some,
            execs.last(),
            config,
        ));
    }
}

/// What the orchard rows give, one after the other, is what generating gives at
/// once: the files of a grove do not depend on whether it was grown in one step
/// or sown and planted. This is so wherever what the rows leave out on the way,
/// the disabled services and those that the runtime cannot run, stands alone.
pub proof fn law_growing_walks_the_rows(
    services: Seq<ServiceView>,
    g: GatheringView,
    config: &Config,
    host: &Host,
    texts: Seq<Seq<char>>,
)
    requires
        services.len() <= usize::MAX,
        gather_valid(services, g),
        g.next == services.len(),
        rest_stands_alone(services, places(g.exec_sets)),
    ensures
        ({
            let trees = trees_of(services, g.exec_sets);
            &&& generated_specs(planted_services(trees), planted_execs(trees), config)
                == generated_specs(services, g.exec_sets, config)
            &&& generated(planted_services(trees), planted_execs(trees), config, host, texts)
                == generated(services, g.exec_sets, config, host, texts)
        }),
{
    let sets = g.exec_sets;
    let kept = places(sets);
    let trees = trees_of(services, sets);
    let execs = planted_execs(trees);
    let some = picked(services, kept);
    let n = services.len() as int;
    assert(picks(services, kept)) by {
        assert forall|i: int| 0 <= i < kept.len() implies (#[trigger] kept[i]) < services.len()
            && !services[kept[i] as int].disabled by {
            assert(sets[i].0 < g.next);
        }
        assert forall|i: int, j: int| 0 <= i < j < kept.len() implies (#[trigger] kept[i]) < (
        #[trigger] kept[j]) by {
            assert(sets[i].0 < sets[j].0);
        }
    }
    assert(planted_services(trees) =~= some);
    assert(renumbered(sets, kept, execs));
    lemma_same_launchd(services, kept, sets, execs, config, host, texts);
    assert(all_specs(services, sets, config) =~= all_specs(some, execs, config)) by {
        assert forall|i: int| 0 <= i < sets.len() implies all_specs(services, sets, config)[i]
            == all_specs(some, execs, config)[i] by {
            assert(sets[i].1 == execs[i].1);
            lemma_same_gates(services, kept, i, config);
        }
    }
    assert(orchdi_artifacts(services, sets, config, texts) =~= orchdi_artifacts(
        some,
        execs,
        config,
        texts,
    )) by {
        assert forall|i: int| 0 <= i < sets.len() implies orchdi_artifacts(
            services,
            sets,
            config,
            texts,
        )[i] == orchdi_artifacts(some, execs, config, texts)[i] by {
            assert(sets[i].1 == execs[i].1);
        }
    }
    lemma_same_ready_set(services, kept);
    lemma_same_gate_artifacts(services, kept, config, n, kept.len() as int);
    assert(services.take(n) =~= services);
    assert(some.take(kept.len() as int) =~= some);
    assert(unit_artifacts(services, sets, config, ready_set(services)) =~= unit_artifacts(
        some,
        execs,
        config,
        ready_set(some),
    )) by {
        assert forall|i: int| 0 <= i < sets.len() implies unit_artifacts(
            services,
            sets,
            config,
            ready_set(services),
        )[i] == unit_artifacts(some, execs, config, ready_set(some))[i] by {
            assert(sets[i].1 == execs[i].1);
        }
    }
    assert(systemd_artifacts(services, sets, config) == systemd_artifacts(some, execs, config));
}

/// Whether no two services share a name.
pub open spec fn names_differ(services: Seq<ServiceView>) -> bool {
    forall|i: int, j: int|
        0 <= i < j < services.len() ==> (#[trigger] services[i]).name != (
        #[trigger] services[j]).name
}

proof fn lemma_enabled_before(services: Seq<ServiceView>, n: int, k: int)
    requires
        0 <= k < n <= services.len() <= usize::MAX,
        !services[k].disabled,
    ensures
        enabled_before(services, n).contains(k as usize),
    decreases n,
{
    let before = enabled_before(services, n - 1);
    let all = enabled_before(services, n);
    if k < n - 1 {
        lemma_enabled_before(services, n - 1, k);
        let i = choose|i: int| 0 <= i < before.len() && before[i] == k as usize;
        assert(all[i] == k as usize);
    } else {
        assert(all[all.len() - 1] == k as usize);
    }
}

/// Disabled services stand alone. So where the runtime can run every enabled
/// service, and no two services share a name, growing walks the rows.
pub proof fn law_only_rejected_services_matter(services: Seq<ServiceView>, g: GatheringView)
    requires
        services.len() <= usize::MAX,
        gather_valid(services, g),
        g.next == services.len(),
        g.errors.len() == 0,
        names_differ(services),
    ensures
        rest_stands_alone(services, places(g.exec_sets)),
{
    let kept = places(g.exec_sets);
    assert forall|i: int|
        #![trigger services[i]]
        0 <= i < services.len() && !kept.contains(i as usize) implies stands_alone(
        services,
        kept,
        i,
    ) by {
        if !services[i].disabled {
            lemma_enabled_before(services, services.len() as int, i);
        }
        assert forall|j: int| 0 <= j < services.len() && j != i implies (
        #[trigger] services[j]).name != services[i].name by {
            if j < i {
                assert(services[j].name != services[i].name);
            }
        }
    }
}

} // verus!
