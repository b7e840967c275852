//! The environment of a launchd job. launchd reads no environment files, so what
//! they set is written into the job.

use crate::collections::{ascending, lemma_listing, listing, map_of, Entry, StringMap};
use crate::config::{orchrc_settings, parse_orchrc, value_of, Config};
use crate::paths::{join, under};
use crate::text::scan::lines;
use crate::types::{Service, ServiceView};
use vstd::prelude::*;

verus! {

/// Names with their values.
pub type Settings = Map<Seq<char>, Seq<char>>;

/// What an environment file sets, seen from the project: a line `KEY=VALUE` sets
/// a variable, as in an `.orchrc`. A file that cannot be read sets nothing.
pub open spec fn file_settings(
    path: Seq<char>,
    project_dir: Seq<char>,
    texts: Settings,
) -> Settings {
    let full = under(project_dir, path);
    if texts.contains_key(full) {
        orchrc_settings(lines(texts[full]))
    } else {
        Map::empty()
    }
}

/// Variables, and over them what environment files set, one after the other: of
/// two files that set one variable, the later stands.
pub open spec fn with_files(
    env: Settings,
    paths: Seq<Seq<char>>,
    project_dir: Seq<char>,
    texts: Settings,
) -> Settings
    decreases paths.len(),
{
    if paths.len() == 0 {
        env
    } else {
        with_files(env, paths.drop_last(), project_dir, texts).union_prefer_right(
            file_settings(paths.last(), project_dir, texts),
        )
    }
}

/// The variables of a service, in ascending order of their names: those that it
/// sets itself, and over them those of its environment files.
pub open spec fn variables(
    service: ServiceView,
    project_dir: Seq<char>,
    texts: Settings,
) -> Seq<Entry> {
    listing(with_files(map_of(service.env), service.env_files, project_dir, texts))
}

/// Gathers the variables of a service.
pub fn gather_variables(service: &Service, project_dir: &str, texts: &StringMap) -> (r: StringMap)
    ensures
        r.entries() == variables(service@, project_dir@, texts@),
        r@ == with_files(map_of(service@.env), service@.env_files, project_dir@, texts@),
{
    let ghost env = map_of(service@.env);
    let ghost all = service@.env_files;
    let mut r = service.env.clone();
    let n: usize = service.env_files.len();
    assert(r@ =~= with_files(env, all.take(0), project_dir@, texts@));
    for i in 0..n
        invariant
            all == service.env_files.deep_view(),
            n == all.len(),
            ascending(r.entries()),
            r@ == with_files(env, all.take(i as int), project_dir@, texts@),
    {
        assert(all.take(i + 1).drop_last() == all.take(i as int));
        assert(all.take(i + 1).last() == all[i as int]);
        let ghost before = r@;
        match texts.get(join(project_dir, service.env_files[i].as_str()).as_str()) {
            Some(text) => {
                let settings = parse_orchrc(text.as_str());
                r.extend(&settings);
            },
            None => {
                assert(before.union_prefer_right(Map::empty()) =~= before);
            },
        }
    }
    assert(all.take(n as int) == all);
    proof {
        lemma_listing(r.entries());
    }
    r
}

/// Where the environment files of services are.
pub open spec fn paths_of(services: Seq<ServiceView>, project_dir: Seq<char>) -> Seq<Seq<char>>
    decreases services.len(),
{
    if services.len() == 0 {
        Seq::empty()
    } else {
        paths_of(services.drop_last(), project_dir) + services.last().env_files.map_values(
            |f: Seq<char>| under(project_dir, f),
        )
    }
}

/// Lists the paths of the environment files that a job for each service is
/// generated from.
pub fn env_file_paths(services: &Vec<Service>, config: &Config) -> (r: Vec<String>)
    ensures
        r.deep_view() == paths_of(services.deep_view(), config.project_dir@),
{
    let ghost all = services.deep_view();
    let ghost project = config.project_dir@;
    let mut r: Vec<String> = Vec::new();
    let n: usize = services.len();
    assert(r.deep_view() =~= paths_of(all.take(0), project));
    for i in 0..n
        invariant
            n == services@.len(),
            all == services.deep_view(),
            project == config.project_dir@,
            r.deep_view() == paths_of(all.take(i as int), project),
    {
        assert(all.take(i + 1).drop_last() == all.take(i as int));
        assert(all.take(i + 1).last() == all[i as int]);
        let files = &services[i].env_files;
        let ghost before = r.deep_view();
        let ghost own = files.deep_view().map_values(|f: Seq<char>| under(project, f));
        let m: usize = files.len();
        assert(r.deep_view() =~= before + own.take(0));
        for j in 0..m
            invariant
                m == files@.len(),
                project == config.project_dir@,
                own == files.deep_view().map_values(|f: Seq<char>| under(project, f)),
                r.deep_view() == before + own.take(j as int),
        {
            let ghost done = r.deep_view();
            r.push(join(config.project_dir.as_str(), files[j].as_str()));
            assert(r.deep_view() =~= done.push(own[j as int]));
            assert(r.deep_view() =~= before + own.take(j + 1));
        }
        assert(own.take(m as int) == own);
    }
    assert(all.take(n as int) == all);
    r
}

/// Of the environment files that set a variable, the last decides.
pub proof fn law_last_file_wins(
    env: Settings,
    paths: Seq<Seq<char>>,
    project_dir: Seq<char>,
    texts: Settings,
    i: int,
    key: Seq<char>,
)
    requires
        0 <= i < paths.len(),
        file_settings(paths[i], project_dir, texts).contains_key(key),
        forall|j: int|
            i < j < paths.len() ==> !file_settings(
                #[trigger] paths[j],
                project_dir,
                texts,
            ).contains_key(key),
    ensures
        value_of(with_files(env, paths, project_dir, texts), key) == Some(
            file_settings(paths[i], project_dir, texts)[key],
        ),
    decreases paths.len(),
{
    if i < paths.len() - 1 {
        let init = paths.drop_last();
        assert(init[i] == paths[i]);
        assert forall|j: int| i < j < init.len() implies !file_settings(
            #[trigger] init[j],
            project_dir,
            texts,
        ).contains_key(key) by {
            assert(init[j] == paths[j]);
        }
        law_last_file_wins(env, init, project_dir, texts, i, key);
        assert(paths[paths.len() - 1] == paths.last());
    }
}

/// A variable that no environment file sets is what the service sets it to.
pub proof fn law_other_variables_stay(
    env: Settings,
    paths: Seq<Seq<char>>,
    project_dir: Seq<char>,
    texts: Settings,
    key: Seq<char>,
)
    requires
        forall|j: int|
            0 <= j < paths.len() ==> !file_settings(
                #[trigger] paths[j],
                project_dir,
                texts,
            ).contains_key(key),
    ensures
        value_of(with_files(env, paths, project_dir, texts), key) == value_of(env, key),
    decreases paths.len(),
{
    if paths.len() > 0 {
        let init = paths.drop_last();
        assert forall|j: int| 0 <= j < init.len() implies !file_settings(
            #[trigger] init[j],
            project_dir,
            texts,
        ).contains_key(key) by {
            assert(init[j] == paths[j]);
        }
        law_other_variables_stay(env, init, project_dir, texts, key);
        assert(paths[paths.len() - 1] == paths.last());
    }
}

} // verus!
