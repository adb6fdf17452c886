use vstd::prelude::*;
use crate::emit::{table_lookup, Build, Config};
use crate::envmap::EnvMap;
use crate::envstr::{expand_chars, EnvStr};
use crate::profile::{resolves_chain, BuildConfiguration};

verus! {

/// The profile stored under key `tt`, if any: the first entry with that key.
pub open spec fn lookup(
    targets: Seq<(String, BuildConfiguration)>,
    tt: Seq<char>,
) -> Option<BuildConfiguration>
    decreases targets.len(),
{
    if targets.len() == 0 {
        None
    } else if targets[0].0@ == tt {
        Some(targets[0].1)
    } else {
        lookup(targets.drop_first(), tt)
    }
}

/// A key held by no entry looks up to nothing — never to the default.
pub proof fn lemma_lookup_absent(targets: Seq<(String, BuildConfiguration)>, tt: Seq<char>)
    requires
        forall|i: int| 0 <= i < targets.len() ==> (#[trigger] targets[i].0@) != tt,
    ensures
        lookup(targets, tt) is None,
    decreases targets.len(),
{
    if targets.len() > 0 {
        assert(targets[0].0@ != tt);
        assert forall|i: int| 0 <= i < targets.drop_first().len() implies (#[trigger] targets
            .drop_first()[i].0@) != tt by {
            assert(targets.drop_first()[i] == targets[i + 1]);
        }
        lemma_lookup_absent(targets.drop_first(), tt);
    }
}

proof fn lemma_lookup_first(targets: Seq<(String, BuildConfiguration)>, tt: Seq<char>, i: int)
    requires
        0 <= i < targets.len(),
        targets[i].0@ == tt,
        forall|j: int| 0 <= j < i ==> (#[trigger] targets[j].0@) != tt,
    ensures
        lookup(targets, tt) == Some(targets[i].1),
    decreases targets.len(),
{
    if i > 0 {
        assert(targets.drop_first()[i - 1] == targets[i]);
        assert forall|j: int| 0 <= j < i - 1 implies (#[trigger] targets.drop_first()[j].0@)
            != tt by {
            assert(targets.drop_first()[j] == targets[j + 1]);
        }
        lemma_lookup_first(targets.drop_first(), tt, i - 1);
    }
}

/// The `-L` flag pairs for the expanded search paths, in order.
pub open spec fn link_flags(paths: Seq<EnvStr>, m: Map<Seq<char>, Seq<char>>) -> Seq<Seq<char>>
    decreases paths.len(),
{
    if paths.len() == 0 {
        Seq::empty()
    } else {
        link_flags(paths.drop_last(), m) + seq!["-L"@, expand_chars(paths.last().text(), m)]
    }
}

/// What the emitted configuration holds for any selected profile `prof`:
/// the alias table as given, a positive job hint, the resolved environment
/// pairs, and one `-L` flag pair per expanded search path.
pub open spec fn emitted_common<F: Fn(&String) -> bool>(
    c: Config,
    prof: BuildConfiguration,
    f: F,
    m0: Map<Seq<char>, Seq<char>>,
    m1: Map<Seq<char>, Seq<char>>,
    alias: Seq<(String, String)>,
) -> bool {
    &&& resolves_chain(prof.env_pairs(), f, m0, m1, c.env@)
    &&& c.alias@ == alias
    &&& c.build.jobs >= 1
    &&& c.build.rustflags@.map_values(|s: String| s@) == link_flags(prof.spec_link_paths(), m1)
}

/// What the emitted configuration holds when an explicit target was chosen:
/// the target is recorded, and its table holds exactly the linker override
/// when the profile has one.
pub open spec fn emitted_for_target(c: Config, prof: BuildConfiguration, tt: Seq<char>, m1: Map<
    Seq<char>,
    Seq<char>,
>) -> bool {
    &&& c.build.target matches Some(t) && t@ == tt
    &&& c.target@.len() == 1
    &&& c.target@[0].0@ == tt
    &&& match prof.spec_linker() {
        Some(l) => c.target@[0].1@.len() == 1 && table_lookup(c.target@, tt, "linker"@)
            == Some(expand_chars(l.text(), m1)),
        None => c.target@[0].1@.len() == 0,
    }
}

/// What the emitted configuration holds for a host build: no target in the
/// build section, and the host's own triple carries the deploy-tool runner
/// indirection.
pub open spec fn emitted_for_host(c: Config, host: Seq<char>) -> bool {
    &&& c.build.target is None
    &&& c.target@.len() == 1
    &&& c.target@[0].0@ == host
    &&& c.target@[0].1@.len() == 1
    &&& table_lookup(c.target@, host, "runner"@) == Some("cargo condep run"@)
}

/// The catalog: per-target profiles plus the default one.
#[derive(Debug)]
pub struct BuildMultitargetConfig {
    targets: Vec<(String, BuildConfiguration)>,
    default: BuildConfiguration,
}

impl BuildMultitargetConfig {
    pub closed spec fn spec_targets(&self) -> Seq<(String, BuildConfiguration)> {
        self.targets@
    }

    pub closed spec fn spec_default(&self) -> BuildConfiguration {
        self.default
    }

    pub fn new(targets: Vec<(String, BuildConfiguration)>, default: BuildConfiguration) -> (r:
        BuildMultitargetConfig)
        ensures
            r.spec_targets() == targets@,
            r.spec_default() == default,
    {
        BuildMultitargetConfig { targets, default }
    }

    pub fn targets(&self) -> (r: &Vec<(String, BuildConfiguration)>)
        ensures
            r@ == self.spec_targets(),
    {
        &self.targets
    }

    pub fn default_profile(&self) -> (r: &BuildConfiguration)
        ensures
            *r == self.spec_default(),
    {
        &self.default
    }

    /// Selects the profile for `target_triple`: no requested target yields
    /// the default profile, always; an unknown target yields nothing,
    /// distinct from the default.
    #[verifier::loop_isolation(false)]
    pub fn get_or_default(self, target_triple: &Option<String>) -> (r: Option<
        BuildConfiguration,
    >)
        ensures
            match target_triple {
                Some(tt) => r == lookup(self.spec_targets(), tt@),
                None => r == Some(self.spec_default()),
            },
    {
        let ghost orig = self;
        match target_triple {
            Some(tt) => {
                let mut targets = self.targets;
                let n = targets.len();
                let mut i: usize = 0;
                while i < n
                    invariant
                        i <= n,
                        n == targets@.len(),
                        targets@ == orig.spec_targets(),
                        forall|j: int| 0 <= j < i ==> (#[trigger] targets@[j].0@) != tt@,
                    decreases n - i,
                {
                    if targets[i].0 == *tt {
                        proof {
                            lemma_lookup_first(targets@, tt@, i as int);
                        }
                        let ghost pre_targets = targets@;
                        let hit = targets.remove(i);
                        proof {
                            assert(hit == pre_targets[i as int]);
                            assert(lookup(orig.spec_targets(), tt@) == Some(
                                pre_targets[i as int].1,
                            ));
                            assert(Some(hit.1) == lookup(orig.spec_targets(), tt@));
                        }
                        return Some(hit.1);
                    }
                    i = i + 1;
                }
                proof {
                    lemma_lookup_absent(targets@, tt@);
                }
                None
            },
            None => Some(self.default),
        }
    }

    /// Resolves the selected profile against `env` and lays the outcome out
    /// as the build tool's configuration: job hint, recorded target (or the
    /// host's triple with the runner indirection when none was requested),
    /// linker override, `-L` flags and the environment table. Yields
    /// nothing, and leaves `env` alone, exactly when the requested target
    /// is unknown.
    pub fn to_config_toml<F: Fn(&String) -> bool>(
        self,
        target_triple: &Option<String>,
        predicate: &F,
        env: &mut EnvMap,
        host_triple: &String,
        alias: Vec<(String, String)>,
    ) -> (r: Option<Config>)
        requires
            old(env).wf(),
            forall|s: &String| #[trigger] call_requires(*predicate, (s,)),
        ensures
            final(env).wf(),
            match target_triple {
                Some(tt) => match lookup(self.spec_targets(), tt@) {
                    None => r is None && final(env)@ == old(env)@,
                    Some(prof) => r matches Some(c) && emitted_common(
                        c,
                        prof,
                        *predicate,
                        old(env)@,
                        final(env)@,
                        alias@,
                    ) && emitted_for_target(c, prof, tt@, final(env)@),
                },
                None => r matches Some(c) && emitted_common(
                    c,
                    self.spec_default(),
                    *predicate,
                    old(env)@,
                    final(env)@,
                    alias@,
                ) && emitted_for_host(c, host_triple@),
            },
    {
        match self.get_or_default(target_triple) {
            None => None,
            Some(prof) => Some(prof.to_config(target_triple, predicate, env, host_triple, alias)),
        }
    }
}

impl BuildConfiguration {
    /// Resolves this profile against `env` and lays the outcome out as the
    /// build tool's configuration: job hint, recorded target (or the host's
    /// triple with the runner indirection when none was given), linker
    /// override, `-L` flags and the environment table.
    pub fn to_config<F: Fn(&String) -> bool>(
        self,
        target_triple: &Option<String>,
        predicate: &F,
        env: &mut EnvMap,
        host_triple: &String,
        alias: Vec<(String, String)>,
    ) -> (c: Config)
        requires
            old(env).wf(),
            forall|s: &String| #[trigger] call_requires(*predicate, (s,)),
        ensures
            final(env).wf(),
            emitted_common(c, self, *predicate, old(env)@, final(env)@, alias@),
            match target_triple {
                Some(tt) => emitted_for_target(c, self, tt@, final(env)@),
                None => emitted_for_host(c, host_triple@),
            },
    {
        let prof = self;
        let env_pairs = prof.to_env(predicate, env);
        let link_paths = prof.expanded_link_paths(env);
        let mut rustflags: Vec<String> = Vec::new();
        let n = link_paths.len();
        let mut i: usize = 0;
        proof {
            assert(link_flags(prof.spec_link_paths().take(0), env@)
                =~= Seq::<Seq<char>>::empty());
            assert(rustflags@.map_values(|s: String| s@) =~= link_flags(
                prof.spec_link_paths().take(0),
                env@,
            ));
        }
        while i < n
            invariant
                i <= n,
                n == link_paths@.len(),
                n == prof.spec_link_paths().len(),
                forall|j: int|
                    0 <= j < n ==> link_paths@[j]@ == expand_chars(
                        #[trigger] prof.spec_link_paths()[j].text(),
                        env@,
                    ),
                rustflags@.map_values(|s: String| s@) == link_flags(
                    prof.spec_link_paths().take(i as int),
                    env@,
                ),
            decreases n - i,
        {
            rustflags.push(String::from_str("-L"));
            rustflags.push(link_paths[i].clone());
            proof {
                let pre = prof.spec_link_paths().take(i as int);
                let cur = prof.spec_link_paths().take(i + 1);
                assert(cur.drop_last() =~= pre);
                assert(cur.last() == prof.spec_link_paths()[i as int]);
                assert(rustflags@.map_values(|s: String| s@) =~= link_flags(cur, env@));
            }
            i = i + 1;
        }
        proof {
            assert(prof.spec_link_paths().take(n as int) =~= prof.spec_link_paths());
        }
        let linker = prof.expanded_linker(env);
        match target_triple {
            Some(tgt) => {
                let build = Build::with_target(tgt.clone(), rustflags);
                let table = match linker {
                    Some(l) => Config::target_mono(
                        tgt.clone(),
                        String::from_str(Config::linker_key()),
                        l,
                    ),
                    None => {
                        let mut tbl: Vec<(String, Vec<(String, String)>)> = Vec::new();
                        tbl.push((tgt.clone(), Vec::new()));
                        tbl
                    },
                };
                let c = Config { alias, build, env: env_pairs, target: table };
                proof {
                    if prof.spec_linker() is Some {
                        assert(c.target@[0].1@[0].0@ == "linker"@);
                        assert(table_lookup(c.target@, tgt@, "linker"@) == Some(
                            c.target@[0].1@[0].1@,
                        ));
                    }
                }
                c
            },
            None => {
                let build = Build::empty_target(rustflags);
                let table = Config::target_mono(
                    host_triple.clone(),
                    String::from_str(Config::runner_key()),
                    String::from_str("cargo condep run"),
                );
                let c = Config { alias, build, env: env_pairs, target: table };
                proof {
                    assert(c.target@[0].1@[0].0@ == "runner"@);
                    assert(table_lookup(c.target@, host_triple@, "runner"@) == Some(
                        c.target@[0].1@[0].1@,
                    ));
                }
                c
            },
        }
    }
}

/// The catalog under its provider name: per-target profiles plus a default.
#[derive(Debug)]
pub struct BuildConfigProvider {
    targets: Vec<(String, BuildConfiguration)>,
    default: BuildConfiguration,
}

impl BuildConfigProvider {
    pub closed spec fn spec_targets(&self) -> Seq<(String, BuildConfiguration)> {
        self.targets@
    }

    pub closed spec fn spec_default(&self) -> BuildConfiguration {
        self.default
    }

    pub fn new(targets: Vec<(String, BuildConfiguration)>, default: BuildConfiguration) -> (r:
        BuildConfigProvider)
        ensures
            r.spec_targets() == targets@,
            r.spec_default() == default,
    {
        BuildConfigProvider { targets, default }
    }

    /// Selects the profile for `target_triple`, as the catalog does.
    pub fn get_or_default(self, target_triple: &Option<String>) -> (r: Option<
        BuildConfiguration,
    >)
        ensures
            match target_triple {
                Some(tt) => r == lookup(self.spec_targets(), tt@),
                None => r == Some(self.spec_default()),
            },
    {
        BuildMultitargetConfig::new(self.targets, self.default).get_or_default(target_triple)
    }
}

} // verus!
