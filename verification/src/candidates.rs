use vstd::prelude::*;
use crate::action::{effective_value, VarAction};
use crate::envmap::EnvMap;
use crate::envstr::{expand_chars, EnvStr};

verus! {

/// The position of the first `true` in `flags`, if any: the candidate a
/// resolution commits to, given each candidate's predicate verdict.
pub open spec fn first_sat(flags: Seq<bool>) -> Option<int>
    decreases flags.len(),
{
    if flags.len() == 0 {
        None
    } else if flags[0] {
        Some(0int)
    } else {
        match first_sat(flags.drop_first()) {
            Some(i) => Some(i + 1),
            None => None,
        }
    }
}

/// Resolution commits to index `i` exactly when candidate `i` satisfies the
/// predicate and no earlier one does; verdicts after `i` play no part.
pub proof fn lemma_first_sat_characterization(flags: Seq<bool>, i: int)
    ensures
        first_sat(flags) == Some(i) <==> (0 <= i < flags.len() && flags[i] && forall|j: int|
            0 <= j < i ==> !flags[j]),
    decreases flags.len(),
{
    if flags.len() > 0 && !flags[0] {
        let d = flags.drop_first();
        lemma_first_sat_characterization(d, i - 1);
        if 0 <= i < flags.len() && flags[i] && (forall|j: int| 0 <= j < i ==> !flags[j]) {
            assert(i != 0);
            assert(d[i - 1] == flags[i]);
            assert forall|j: int| 0 <= j < i - 1 implies !d[j] by {
                assert(d[j] == flags[j + 1]);
            }
            assert(first_sat(d) == Some(i - 1));
        }
        if first_sat(flags) == Some(i) {
            assert(first_sat(d) == Some(i - 1));
            assert(0 <= i - 1 < d.len() && d[i - 1]);
            assert(flags[i] == d[i - 1]);
            assert forall|j: int| 0 <= j < i implies !flags[j] by {
                if j > 0 {
                    assert(!d[j - 1]);
                    assert(d[j - 1] == flags[j]);
                }
            }
        }
    }
}

/// An ordered list of candidate values for one variable, tried first to
/// last, together with the merge action for the value that wins.
#[derive(Debug, Clone)]
pub struct ValueAlternatives {
    alternatives: Vec<EnvStr>,
    action: VarAction,
}

/// A profile entry: one variable and its candidate set.
#[derive(Debug, Clone)]
pub struct EnvPair {
    pub key: String,
    pub value: ValueAlternatives,
}

/// The expansion of candidate `i` against environment `m`.
pub open spec fn expanded_alt(va: ValueAlternatives, m: Map<Seq<char>, Seq<char>>, i: int) -> Seq<
    char,
> {
    expand_chars(va.alts()[i].text(), m)
}

/// Every candidate before `i` was expanded against `m` and turned down by
/// the predicate.
pub open spec fn denied_before<F: Fn(&String) -> bool>(
    va: ValueAlternatives,
    m: Map<Seq<char>, Seq<char>>,
    f: F,
    i: int,
) -> bool {
    forall|j: int|
        0 <= j < i ==> exists|s: String|
            s@ == #[trigger] expanded_alt(va, m, j) && call_ensures(f, (&s,), false)
}

/// Candidate `i` was expanded against `m` and accepted by the predicate.
pub open spec fn accepted_at<F: Fn(&String) -> bool>(
    va: ValueAlternatives,
    m: Map<Seq<char>, Seq<char>>,
    f: F,
    i: int,
) -> bool {
    exists|s: String| s@ == expanded_alt(va, m, i) && call_ensures(f, (&s,), true)
}

/// For a predicate whose verdicts are a function of the candidate's text —
/// `flags[j]` being its verdict on the expansion of candidate `j` — a
/// resolution that committed to candidate `i` committed to the first
/// satisfying one: every verdict after `i` is ignored.
pub proof fn lemma_resolution_commits_first<F: Fn(&String) -> bool>(
    va: ValueAlternatives,
    m: Map<Seq<char>, Seq<char>>,
    f: F,
    flags: Seq<bool>,
    i: int,
)
    requires
        flags.len() == va.alts().len(),
        forall|j: int, s: String|
            #![trigger expanded_alt(va, m, j), call_ensures(f, (&s,), true)]
            #![trigger expanded_alt(va, m, j), call_ensures(f, (&s,), false)]
            0 <= j < flags.len() && s@ == expanded_alt(va, m, j) ==> (call_ensures(
                f,
                (&s,),
                true,
            ) ==> flags[j]) && (call_ensures(f, (&s,), false) ==> !flags[j]),
        0 <= i < va.alts().len(),
        denied_before(va, m, f, i),
        accepted_at(va, m, f, i),
    ensures
        first_sat(flags) == Some(i),
{
    let si = choose|s: String| s@ == expanded_alt(va, m, i) && call_ensures(f, (&s,), true);
    assert(flags[i]);
    assert forall|j: int| 0 <= j < i implies !flags[j] by {
        let sj = choose|s: String|
            s@ == #[trigger] expanded_alt(va, m, j) && call_ensures(f, (&s,), false);
        assert(call_ensures(f, (&sj,), false));
    }
    lemma_first_sat_characterization(flags, i);
}

/// What one profile entry's resolution did to the environment: either some
/// candidate `i` won — every earlier one denied, `i` accepted, the pair
/// written under the entry's action — or every candidate was denied and the
/// environment was left untouched.
pub open spec fn pair_resolved<F: Fn(&String) -> bool>(
    pair: EnvPair,
    f: F,
    m0: Map<Seq<char>, Seq<char>>,
    m1: Map<Seq<char>, Seq<char>>,
    emitted: Option<(String, String)>,
) -> bool {
    match emitted {
        Some(p) => exists|i: int|
            {
                &&& 0 <= i < pair.value.alts().len()
                &&& #[trigger] denied_before(pair.value, m0, f, i)
                &&& accepted_at(pair.value, m0, f, i)
                &&& p.0@ == pair.key@
                &&& p.1@ == effective_value(
                    pair.value.spec_action(),
                    m0,
                    pair.key@,
                    expanded_alt(pair.value, m0, i),
                )
                &&& m1 == m0.insert(pair.key@, p.1@)
            },
        None => {
            &&& denied_before(pair.value, m0, f, pair.value.alts().len() as int)
            &&& m1 == m0
        },
    }
}

impl ValueAlternatives {
    pub closed spec fn alts(&self) -> Seq<EnvStr> {
        self.alternatives@
    }

    pub closed spec fn spec_action(&self) -> VarAction {
        self.action
    }

    pub fn new(alt: Vec<EnvStr>, action: VarAction) -> (r: ValueAlternatives)
        ensures
            r.alts() == alt@,
            r.spec_action() == action,
    {
        ValueAlternatives { alternatives: alt, action }
    }

    /// A single-candidate set.
    pub fn one(alt: EnvStr, action: VarAction) -> (r: ValueAlternatives)
        ensures
            r.alts() == seq![alt],
            r.spec_action() == action,
    {
        let mut v: Vec<EnvStr> = Vec::new();
        v.push(alt);
        proof {
            assert(v@ =~= seq![alt]);
        }
        ValueAlternatives { alternatives: v, action }
    }

    /// A single-candidate set given as a literal.
    pub fn one_str(alt: &str, action: VarAction) -> (r: ValueAlternatives)
        ensures
            r.alts().len() == 1,
            r.alts()[0].text() == alt@,
            r.spec_action() == action,
    {
        ValueAlternatives::one(EnvStr::from_str(alt), action)
    }

    pub fn alternatives(&self) -> (r: &Vec<EnvStr>)
        ensures
            r@ == self.alts(),
    {
        &self.alternatives
    }

    pub fn action(&self) -> (r: &VarAction)
        ensures
            *r == self.spec_action(),
    {
        &self.action
    }

    /// Expands the candidates in order against `env`, asks the predicate
    /// about each, commits to the first accepted one, writes it to `env`
    /// under the candidate set's action, and returns the pair written.
    /// Returns `None`, and leaves `env` untouched, when the predicate turns
    /// every candidate down.
    pub fn get_env_pair<F: Fn(&String) -> bool>(
        &self,
        key: String,
        predicate: &F,
        env: &mut EnvMap,
    ) -> (r: Option<(String, String)>)
        requires
            old(env).wf(),
            forall|s: &String| #[trigger] call_requires(*predicate, (s,)),
        ensures
            final(env).wf(),
            match r {
                Some(p) => exists|i: int|
                    {
                        &&& 0 <= i < self.alts().len()
                        &&& #[trigger] denied_before(*self, old(env)@, *predicate, i)
                        &&& accepted_at(*self, old(env)@, *predicate, i)
                        &&& p.0@ == key@
                        &&& p.1@ == effective_value(
                            self.spec_action(),
                            old(env)@,
                            key@,
                            expanded_alt(*self, old(env)@, i),
                        )
                        &&& final(env)@ == old(env)@.insert(key@, p.1@)
                    },
                None => {
                    &&& denied_before(*self, old(env)@, *predicate, self.alts().len() as int)
                    &&& final(env)@ == old(env)@
                },
            },
    {
        let n = self.alternatives.len();
        let mut i: usize = 0;
        while i < n
            invariant
                old(env).wf(),
                env.wf(),
                env@ == old(env)@,
                i <= n,
                n == self.alts().len(),
                forall|s: &String| #[trigger] call_requires(*predicate, (s,)),
                denied_before(*self, old(env)@, *predicate, i as int),
            decreases n - i,
        {
            let cand: String = self.alternatives[i].to_string(env);
            let ok = predicate(&cand);
            if ok {
                proof {
                    assert(cand@ == expanded_alt(*self, old(env)@, i as int));
                    assert(call_ensures(*predicate, (&cand,), true));
                }
                let written = self.action.convert(key, cand, env);
                return Some(written);
            }
            proof {
                assert(cand@ == expanded_alt(*self, old(env)@, i as int));
                assert(call_ensures(*predicate, (&cand,), false));
                assert forall|j: int| 0 <= j < i + 1 implies exists|s: String|
                    s@ == #[trigger] expanded_alt(*self, old(env)@, j) && call_ensures(
                        *predicate,
                        (&s,),
                        false,
                    ) by {
                    if j == i {
                        assert(cand@ == expanded_alt(*self, old(env)@, j) && call_ensures(
                            *predicate,
                            (&cand,),
                            false,
                        ));
                    }
                }
            }
            i = i + 1;
        }
        None
    }

    /// As `get_env_pair`, returning only the value written.
    pub fn setup_env<F: Fn(&String) -> bool>(
        &self,
        key: &String,
        predicate: &F,
        env: &mut EnvMap,
    ) -> (r: Option<String>)
        requires
            old(env).wf(),
            forall|s: &String| #[trigger] call_requires(*predicate, (s,)),
        ensures
            final(env).wf(),
            match r {
                Some(v) => exists|i: int|
                    {
                        &&& 0 <= i < self.alts().len()
                        &&& #[trigger] denied_before(*self, old(env)@, *predicate, i)
                        &&& accepted_at(*self, old(env)@, *predicate, i)
                        &&& v@ == effective_value(
                            self.spec_action(),
                            old(env)@,
                            key@,
                            expanded_alt(*self, old(env)@, i),
                        )
                        &&& final(env)@ == old(env)@.insert(key@, v@)
                    },
                None => {
                    &&& denied_before(*self, old(env)@, *predicate, self.alts().len() as int)
                    &&& final(env)@ == old(env)@
                },
            },
    {
        match self.get_env_pair(key.clone(), predicate, env) {
            Some(p) => Some(p.1),
            None => None,
        }
    }

    /// As `setup_env`, consuming the candidate set.
    pub fn into_env<F: Fn(&String) -> bool>(
        self,
        key: &String,
        predicate: &F,
        env: &mut EnvMap,
    ) -> (r: Option<String>)
        requires
            old(env).wf(),
            forall|s: &String| #[trigger] call_requires(*predicate, (s,)),
        ensures
            final(env).wf(),
            match r {
                Some(v) => exists|i: int|
                    {
                        &&& 0 <= i < self.alts().len()
                        &&& #[trigger] denied_before(self, old(env)@, *predicate, i)
                        &&& accepted_at(self, old(env)@, *predicate, i)
                        &&& v@ == effective_value(
                            self.spec_action(),
                            old(env)@,
                            key@,
                            expanded_alt(self, old(env)@, i),
                        )
                        &&& final(env)@ == old(env)@.insert(key@, v@)
                    },
                None => {
                    &&& denied_before(self, old(env)@, *predicate, self.alts().len() as int)
                    &&& final(env)@ == old(env)@
                },
            },
    {
        self.setup_env(key, predicate, env)
    }
}

} // verus!
