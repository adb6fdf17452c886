use vstd::prelude::*;
use crate::candidates::{pair_resolved, EnvPair};
use crate::envmap::EnvMap;
use crate::envstr::{expand_chars, EnvStr};
use crate::links::{LinkError, LinkSource};

verus! {

/// How much of the resolution is reported; the level never changes what is
/// resolved, only what callers choose to print.
#[derive(Debug, Clone, Copy)]
pub enum LogLevel {
    Off,
    Pretty,
    Verbose,
}

impl LogLevel {
    pub fn from_str(s: &str) -> (r: LogLevel)
        ensures
            s@ == "off"@ ==> r matches LogLevel::Off,
            s@ == "verbose"@ ==> r matches LogLevel::Verbose,
            s@ != "off"@ && s@ != "verbose"@ ==> r matches LogLevel::Pretty,
    {
        proof {
            reveal_strlit("off");
            reveal_strlit("verbose");
            assert("off"@.len() == 3);
            assert("verbose"@.len() == 7);
        }
        let owned = s.to_owned();
        if owned == String::from_str("off") {
            LogLevel::Off
        } else if owned == String::from_str("verbose") {
            LogLevel::Verbose
        } else {
            LogLevel::Pretty
        }
    }

    pub fn print_pretty(&self) -> (r: bool)
        ensures
            r == !(self matches LogLevel::Off),
    {
        match self {
            LogLevel::Off => false,
            LogLevel::Pretty => true,
            LogLevel::Verbose => true,
        }
    }

    pub fn print_verbose(&self) -> (r: bool)
        ensures
            r == (self matches LogLevel::Verbose),
    {
        match self {
            LogLevel::Off => false,
            LogLevel::Pretty => false,
            LogLevel::Verbose => true,
        }
    }
}

/// `m` with every entry of `top` written over it, in order.
pub open spec fn merged(
    m: Map<Seq<char>, Seq<char>>,
    top: Seq<(String, String)>,
) -> Map<Seq<char>, Seq<char>>
    decreases top.len(),
{
    if top.len() == 0 {
        m
    } else {
        merged(m, top.drop_last()).insert(top.last().0@, top.last().1@)
    }
}

/// Writes every harvested `top` entry into `env`, unconditionally, in order.
pub fn merge_environment(top: &Vec<(String, String)>, env: &mut EnvMap)
    requires
        old(env).wf(),
    ensures
        final(env).wf(),
        final(env)@ == merged(old(env)@, top@),
{
    let n = top.len();
    let mut i: usize = 0;
    while i < n
        invariant
            env.wf(),
            i <= n,
            n == top@.len(),
            env@ == merged(old(env)@, top@.take(i as int)),
        decreases n - i,
    {
        let pair = &top[i];
        env.set(pair.0.clone(), pair.1.clone());
        proof {
            assert(top@.take(i + 1).drop_last() =~= top@.take(i as int));
            assert(top@.take(i + 1).last() == top@[i as int]);
        }
        i = i + 1;
    }
    proof {
        assert(top@.take(n as int) =~= top@);
    }
}

/// The entries of `pairs`, resolved first to last against a growing
/// environment: `m1` and `out` are a possible final environment and list of
/// written pairs when starting from `m0`, with each entry's verdicts
/// witnessed by the predicate's postcondition.
pub open spec fn resolves_chain<F: Fn(&String) -> bool>(
    pairs: Seq<EnvPair>,
    f: F,
    m0: Map<Seq<char>, Seq<char>>,
    m1: Map<Seq<char>, Seq<char>>,
    out: Seq<(String, String)>,
) -> bool
    decreases pairs.len(),
{
    if pairs.len() == 0 {
        m1 == m0 && out.len() == 0
    } else {
        ||| (out.len() >= 1 && pair_resolved(
            pairs[0],
            f,
            m0,
            m0.insert(pairs[0].key@, out[0].1@),
            Some(out[0]),
        ) && resolves_chain(
            pairs.drop_first(),
            f,
            m0.insert(pairs[0].key@, out[0].1@),
            m1,
            out.drop_first(),
        ))
        ||| (pair_resolved(pairs[0], f, m0, m0, None) && resolves_chain(
            pairs.drop_first(),
            f,
            m0,
            m1,
            out,
        ))
    }
}

/// Extends a resolution chain by one more entry at its end.
proof fn lemma_chain_snoc<F: Fn(&String) -> bool>(
    pairs: Seq<EnvPair>,
    f: F,
    m0: Map<Seq<char>, Seq<char>>,
    m1: Map<Seq<char>, Seq<char>>,
    m2: Map<Seq<char>, Seq<char>>,
    out: Seq<(String, String)>,
    pair: EnvPair,
    emitted: Option<(String, String)>,
)
    requires
        resolves_chain(pairs, f, m0, m1, out),
        pair_resolved(pair, f, m1, m2, emitted),
    ensures
        resolves_chain(
            pairs.push(pair),
            f,
            m0,
            m2,
            match emitted {
                Some(p) => out.push(p),
                None => out,
            },
        ),
    decreases pairs.len(),
{
    let out2 = match emitted {
        Some(p) => out.push(p),
        None => out,
    };
    if pairs.len() == 0 {
        let ext = pairs.push(pair);
        assert(m1 == m0);
        assert(ext[0] == pair);
        assert(ext.drop_first() =~= Seq::<EnvPair>::empty());
        match emitted {
            Some(p) => {
                assert(out2[0] == p);
                assert(out2.drop_first() =~= Seq::<(String, String)>::empty());
                assert(m2 == m0.insert(pair.key@, p.1@));
                assert(resolves_chain(
                    Seq::<EnvPair>::empty(),
                    f,
                    m0.insert(ext[0].key@, out2[0].1@),
                    m2,
                    Seq::<(String, String)>::empty(),
                ));
                assert(pair_resolved(
                    ext[0],
                    f,
                    m0,
                    m0.insert(ext[0].key@, out2[0].1@),
                    Some(out2[0]),
                ));
                assert(resolves_chain(ext, f, m0, m2, out2));
            },
            None => {
                assert(m2 == m0);
                assert(resolves_chain(Seq::<EnvPair>::empty(), f, m0, m2, out2));
                assert(pair_resolved(ext[0], f, m0, m0, None));
                assert(resolves_chain(ext, f, m0, m2, out2));
            },
        }
    } else {
        let ext = pairs.push(pair);
        assert(ext[0] == pairs[0]);
        assert(ext.drop_first() =~= pairs.drop_first().push(pair));
        if out.len() >= 1 && pair_resolved(
            pairs[0],
            f,
            m0,
            m0.insert(pairs[0].key@, out[0].1@),
            Some(out[0]),
        ) && resolves_chain(
            pairs.drop_first(),
            f,
            m0.insert(pairs[0].key@, out[0].1@),
            m1,
            out.drop_first(),
        ) {
            let mid = m0.insert(pairs[0].key@, out[0].1@);
            lemma_chain_snoc(pairs.drop_first(), f, mid, m1, m2, out.drop_first(), pair, emitted);
            assert(out2[0] == out[0]);
            match emitted {
                Some(p) => {
                    assert(out2.drop_first() =~= out.drop_first().push(p));
                },
                None => {
                    assert(out2.drop_first() =~= out.drop_first());
                },
            }
            assert(resolves_chain(ext.drop_first(), f, mid, m2, out2.drop_first()));
            assert(out2.len() >= 1 && pair_resolved(
                ext[0],
                f,
                m0,
                m0.insert(ext[0].key@, out2[0].1@),
                Some(out2[0]),
            ) && resolves_chain(
                ext.drop_first(),
                f,
                m0.insert(ext[0].key@, out2[0].1@),
                m2,
                out2.drop_first(),
            ));
            assert(resolves_chain(ext, f, m0, m2, out2));
        } else {
            assert(pair_resolved(pairs[0], f, m0, m0, None) && resolves_chain(
                pairs.drop_first(),
                f,
                m0,
                m1,
                out,
            ));
            lemma_chain_snoc(pairs.drop_first(), f, m0, m1, m2, out, pair, emitted);
            assert(resolves_chain(ext.drop_first(), f, m0, m2, out2));
            assert(pair_resolved(ext[0], f, m0, m0, None));
            assert(resolves_chain(ext, f, m0, m2, out2));
        }
    }
}

/// Whether a planned link matches what `LinkSource::plan` promises for `ls`
/// against environment `m`.
pub open spec fn plan_ok(
    ls: LinkSource,
    dir: Seq<char>,
    m: Map<Seq<char>, Seq<char>>,
    r: Result<(String, String), LinkError>,
) -> bool {
    match r {
        Ok(p) => p.1@ == crate::links::link_path(dir, p.0@) && match ls.spec_source_type() {
            crate::links::LinkSourceType::Direct => p.0@ == ls.spec_value(),
            crate::links::LinkSourceType::Env => m.contains_key(ls.spec_value()) && p.0@
                == m[ls.spec_value()],
        },
        Err(e) => ls.spec_source_type() matches crate::links::LinkSourceType::Env
            && !m.contains_key(ls.spec_value()) && e matches LinkError::VarError,
    }
}

/// The per-target bundle: ordered variable entries, shell dump files to
/// source, links to materialize, an optional linker override and extra
/// library search paths.
#[derive(Debug)]
pub struct BuildConfiguration {
    env: Vec<EnvPair>,
    sources: Vec<EnvStr>,
    soft_links: Vec<LinkSource>,
    linker: Option<EnvStr>,
    link_paths: Vec<EnvStr>,
}

impl BuildConfiguration {
    pub closed spec fn env_pairs(&self) -> Seq<EnvPair> {
        self.env@
    }

    pub closed spec fn spec_sources(&self) -> Seq<EnvStr> {
        self.sources@
    }

    pub closed spec fn spec_links(&self) -> Seq<LinkSource> {
        self.soft_links@
    }

    pub closed spec fn spec_linker(&self) -> Option<EnvStr> {
        self.linker
    }

    pub closed spec fn spec_link_paths(&self) -> Seq<EnvStr> {
        self.link_paths@
    }

    pub fn new(
        env: Vec<EnvPair>,
        sources: Vec<EnvStr>,
        soft_links: Vec<LinkSource>,
        linker: Option<EnvStr>,
        link_paths: Vec<EnvStr>,
    ) -> (r: BuildConfiguration)
        ensures
            r.env_pairs() == env@,
            r.spec_sources() == sources@,
            r.spec_links() == soft_links@,
            r.spec_linker() == linker,
            r.spec_link_paths() == link_paths@,
    {
        BuildConfiguration { env, sources, soft_links, linker, link_paths }
    }

    pub fn pairs(&self) -> (r: &Vec<EnvPair>)
        ensures
            r@ == self.env_pairs(),
    {
        &self.env
    }

    pub fn sources(&self) -> (r: &Vec<EnvStr>)
        ensures
            r@ == self.spec_sources(),
    {
        &self.sources
    }

    pub fn soft_links(&self) -> (r: &Vec<LinkSource>)
        ensures
            r@ == self.spec_links(),
    {
        &self.soft_links
    }

    pub fn linker(&self) -> (r: &Option<EnvStr>)
        ensures
            *r == self.spec_linker(),
    {
        &self.linker
    }

    pub fn link_paths(&self) -> (r: &Vec<EnvStr>)
        ensures
            r@ == self.spec_link_paths(),
    {
        &self.link_paths
    }

    pub fn sources_len(&self) -> (r: usize)
        ensures
            r == self.spec_sources().len(),
    {
        self.sources.len()
    }

    /// The dump file at `i`, expanded against the current environment.
    pub fn expanded_source(&self, i: usize, env: &EnvMap) -> (r: String)
        requires
            i < self.spec_sources().len(),
            env.wf(),
        ensures
            r@ == expand_chars(self.spec_sources()[i as int].text(), env@),
    {
        self.sources[i].to_string(env)
    }

    /// Resolves every entry in order against `env`, threading each write so
    /// that later entries observe earlier ones, and returns the pairs
    /// written; entries whose candidates were all denied are skipped.
    pub fn to_env<F: Fn(&String) -> bool>(&self, predicate: &F, env: &mut EnvMap) -> (r: Vec<
        (String, String),
    >)
        requires
            old(env).wf(),
            forall|s: &String| #[trigger] call_requires(*predicate, (s,)),
        ensures
            final(env).wf(),
            resolves_chain(self.env_pairs(), *predicate, old(env)@, final(env)@, r@),
    {
        let n = self.env.len();
        let mut out: Vec<(String, String)> = Vec::new();
        let mut i: usize = 0;
        proof {
            assert(self.env_pairs().take(0) =~= Seq::<EnvPair>::empty());
        }
        while i < n
            invariant
                env.wf(),
                i <= n,
                n == self.env_pairs().len(),
                forall|s: &String| #[trigger] call_requires(*predicate, (s,)),
                resolves_chain(self.env_pairs().take(i as int), *predicate, old(env)@, env@, out@),
            decreases n - i,
        {
            let ghost m1 = env@;
            let ghost out_pre = out@;
            let pair = &self.env[i];
            let emitted = pair.value.get_env_pair(pair.key.clone(), predicate, env);
            let ghost g_emitted = emitted;
            match emitted {
                Some(p) => {
                    proof {
                        assert(pair_resolved(
                            self.env_pairs()[i as int],
                            *predicate,
                            m1,
                            env@,
                            Some(p),
                        ));
                        assert(env@ == m1.insert(self.env_pairs()[i as int].key@, p.1@));
                    }
                    out.push(p);
                },
                None => {
                    proof {
                        assert(pair_resolved(
                            self.env_pairs()[i as int],
                            *predicate,
                            m1,
                            env@,
                            None,
                        ));
                    }
                },
            }
            proof {
                lemma_chain_snoc(
                    self.env_pairs().take(i as int),
                    *predicate,
                    old(env)@,
                    m1,
                    env@,
                    out_pre,
                    self.env_pairs()[i as int],
                    g_emitted,
                );
                assert(self.env_pairs().take(i as int).push(self.env_pairs()[i as int])
                    =~= self.env_pairs().take(i + 1));
            }
            i = i + 1;
        }
        proof {
            assert(self.env_pairs().take(n as int) =~= self.env_pairs());
        }
        out
    }

    /// Plans every link of the profile for directory `link_dir`: each entry
    /// is the planned (source, link) pair, or the reason planning failed.
    /// Failures are collected, never propagated: one bad link must not stop
    /// the pipeline.
    pub fn plan_links(&self, link_dir: &String, env: &EnvMap) -> (r: Vec<
        Result<(String, String), LinkError>,
    >)
        requires
            env.wf(),
        ensures
            r@.len() == self.spec_links().len(),
            forall|i: int|
                0 <= i < r@.len() ==> #[trigger] plan_ok(
                    self.spec_links()[i],
                    link_dir@,
                    env@,
                    r@[i],
                ),
    {
        let n = self.soft_links.len();
        let mut out: Vec<Result<(String, String), LinkError>> = Vec::new();
        let mut i: usize = 0;
        while i < n
            invariant
                env.wf(),
                i <= n,
                n == self.spec_links().len(),
                out@.len() == i,
                forall|j: int|
                    0 <= j < i ==> #[trigger] plan_ok(
                        self.spec_links()[j],
                        link_dir@,
                        env@,
                        out@[j],
                    ),
            decreases n - i,
        {
            let planned = self.soft_links[i].plan(link_dir, env);
            out.push(planned);
            i = i + 1;
        }
        out
    }

    /// The linker override, expanded against `env`.
    pub fn expanded_linker(&self, env: &EnvMap) -> (r: Option<String>)
        requires
            env.wf(),
        ensures
            match r {
                Some(s) => self.spec_linker() matches Some(e) && s@ == expand_chars(
                    e.text(),
                    env@,
                ),
                None => self.spec_linker() is None,
            },
    {
        match &self.linker {
            Some(l) => Some(l.to_string(env)),
            None => None,
        }
    }

    /// The extra library search paths, expanded against `env`.
    pub fn expanded_link_paths(&self, env: &EnvMap) -> (r: Vec<String>)
        requires
            env.wf(),
        ensures
            r@.len() == self.spec_link_paths().len(),
            forall|i: int|
                0 <= i < r@.len() ==> r@[i]@ == expand_chars(
                    #[trigger] self.spec_link_paths()[i].text(),
                    env@,
                ),
    {
        let n = self.link_paths.len();
        let mut out: Vec<String> = Vec::new();
        let mut i: usize = 0;
        while i < n
            invariant
                env.wf(),
                i <= n,
                n == self.spec_link_paths().len(),
                out@.len() == i,
                forall|j: int|
                    0 <= j < i ==> out@[j]@ == expand_chars(
                        #[trigger] self.spec_link_paths()[j].text(),
                        env@,
                    ),
            decreases n - i,
        {
            out.push(self.link_paths[i].to_string(env));
            i = i + 1;
        }
        out
    }
}

} // verus!
