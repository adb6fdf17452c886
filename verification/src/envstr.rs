use vstd::prelude::*;
use crate::envmap::EnvMap;
use crate::strutil::{str_chars, string_from_chars};

verus! {

/// Characters that may open a variable name: letters and underscore.
pub open spec fn is_ident_start(c: char) -> bool {
    c == '_' || (97 <= c as u32 && c as u32 <= 122) || (65 <= c as u32 && c as u32 <= 90)
}

/// Characters that may continue a variable name: letters, digits, underscore.
pub open spec fn is_ident_char(c: char) -> bool {
    is_ident_start(c) || (48 <= c as u32 && c as u32 <= 57)
}

/// The length of the longest prefix of `t` made of name characters.
pub open spec fn ident_run(t: Seq<char>) -> nat
    decreases t.len(),
{
    if t.len() > 0 && is_ident_char(t[0]) {
        (1 + ident_run(t.drop_first())) as nat
    } else {
        0
    }
}

proof fn lemma_ident_run_le(t: Seq<char>)
    ensures
        ident_run(t) <= t.len(),
    decreases t.len(),
{
    if t.len() > 0 && is_ident_char(t[0]) {
        lemma_ident_run_le(t.drop_first());
    }
}

/// `ident_run` is pinned down by its prefix of name characters and the
/// first character after it.
proof fn lemma_ident_run_is(t: Seq<char>, k: int)
    requires
        0 <= k <= t.len(),
        forall|m: int| 0 <= m < k ==> is_ident_char(t[m]),
        k < t.len() ==> !is_ident_char(t[k]),
    ensures
        ident_run(t) == k,
    decreases t.len(),
{
    if k == 0 {
    } else {
        assert(is_ident_char(t[0]));
        let u = t.drop_first();
        assert forall|m: int| 0 <= m < k - 1 implies is_ident_char(u[m]) by {
            assert(u[m] == t[m + 1]);
        }
        if k - 1 < u.len() {
            assert(u[k - 1] == t[k]);
        }
        lemma_ident_run_is(u, k - 1);
    }
}

/// Whether `s` opens with a `$NAME` token.
pub open spec fn token_at_start(s: Seq<char>) -> bool {
    s.len() >= 2 && s[0] == '$' && is_ident_start(s[1])
}

/// One left-to-right expansion pass: each maximal `$NAME` token is replaced
/// by `env[NAME]` when that name is bound, and is otherwise left verbatim;
/// substituted values are not scanned again.
pub open spec fn expand_chars(s: Seq<char>, env: Map<Seq<char>, Seq<char>>) -> Seq<char>
    decreases s.len(),
    via expand_chars_decreases
{
    if s.len() == 0 {
        s
    } else if token_at_start(s) {
        let k = ident_run(s.skip(1)) as int;
        let name = s.subrange(1, 1 + k);
        let replaced = if env.contains_key(name) {
            env[name]
        } else {
            s.take(1 + k)
        };
        replaced + expand_chars(s.skip(1 + k), env)
    } else {
        s.take(1) + expand_chars(s.skip(1), env)
    }
}

#[via_fn]
proof fn expand_chars_decreases(s: Seq<char>, env: Map<Seq<char>, Seq<char>>) {
    if s.len() != 0 && token_at_start(s) {
        assert(s.skip(1) =~= s.drop_first());
        lemma_ident_run_le(s.skip(1));
        assert(ident_run(s.skip(1)) >= 1) by {
            assert(is_ident_char(s.skip(1)[0]));
        }
    }
}

fn ident_start_exec(c: char) -> (r: bool)
    ensures
        r == is_ident_start(c),
{
    let u = c as u32;
    c == '_' || (97 <= u && u <= 122) || (65 <= u && u <= 90)
}

fn ident_char_exec(c: char) -> (r: bool)
    ensures
        r == is_ident_char(c),
{
    let u = c as u32;
    ident_start_exec(c) || (48 <= u && u <= 57)
}

/// Expands every `$NAME` token in `s` against `env`, in one pass.
fn expand_chars_exec(s: &Vec<char>, env: &EnvMap) -> (r: Vec<char>)
    requires
        env.wf(),
    ensures
        r@ == expand_chars(s@, env@),
{
    let n = s.len();
    let mut out: Vec<char> = Vec::new();
    let mut i: usize = 0;
    proof {
        assert(s@.skip(0) =~= s@);
        assert(out@ + expand_chars(s@, env@) =~= expand_chars(s@, env@));
    }
    while i < n
        invariant
            env.wf(),
            i <= n,
            n == s@.len(),
            out@ + expand_chars(s@.skip(i as int), env@) == expand_chars(s@, env@),
        decreases n - i,
    {
        let ghost pre = out@;
        let ghost tail = s@.skip(i as int);
        if s[i] == '$' && i + 1 < n && ident_start_exec(s[i + 1]) {
            proof {
                assert(tail[0] == s@[i as int]);
                assert(tail[1] == s@[i + 1]);
                assert(token_at_start(tail));
            }
            // scan the maximal run of name characters after the dollar sign
            let mut j: usize = i + 1;
            while j < n && ident_char_exec(s[j])
                invariant
                    i + 1 <= j <= n,
                    n == s@.len(),
                    forall|m: int| i + 1 <= m < j ==> is_ident_char(s@[m]),
                decreases n - j,
            {
                j = j + 1;
            }
            proof {
                let u = s@.skip(i + 1);
                assert forall|m: int| 0 <= m < j - (i + 1) implies is_ident_char(u[m]) by {
                    assert(u[m] == s@[i + 1 + m]);
                }
                if j < n {
                    assert(u[j - (i + 1)] == s@[j as int]);
                }
                lemma_ident_run_is(u, j - (i + 1));
                assert(tail.skip(1) =~= u);
                assert(ident_run(tail.skip(1)) == j - (i + 1));
            }
            let ghost k = (j - (i + 1)) as int;
            // the token's name
            let mut name_chars: Vec<char> = Vec::new();
            let mut m: usize = i + 1;
            while m < j
                invariant
                    i + 1 <= m <= j <= n,
                    n == s@.len(),
                    name_chars@ == s@.subrange(i + 1, m as int),
                decreases j - m,
            {
                name_chars.push(s[m]);
                proof {
                    assert(name_chars@ =~= s@.subrange(i + 1, m + 1));
                }
                m = m + 1;
            }
            proof {
                assert(tail.subrange(1, 1 + k) =~= s@.subrange(i + 1, j as int));
            }
            let name = string_from_chars(&name_chars);
            match env.get(&name) {
                Some(value) => {
                    let mut chunk = str_chars(value.as_str());
                    proof {
                        assert(env@[name@] == chunk@);
                    }
                    out.append(&mut chunk);
                },
                None => {
                    // the token is left verbatim
                    let mut m2: usize = i;
                    while m2 < j
                        invariant
                            i <= m2 <= j <= n,
                            n == s@.len(),
                            out@ == pre + s@.subrange(i as int, m2 as int),
                        decreases j - m2,
                    {
                        out.push(s[m2]);
                        proof {
                            assert(out@ =~= pre + s@.subrange(i as int, m2 + 1));
                        }
                        m2 = m2 + 1;
                    }
                    proof {
                        assert(tail.take(1 + k) =~= s@.subrange(i as int, j as int));
                    }
                },
            }
            proof {
                assert(tail.skip(1 + k) =~= s@.skip(j as int));
                assert(out@ + expand_chars(s@.skip(j as int), env@) == expand_chars(
                    s@,
                    env@,
                ));
            }
            i = j;
        } else {
            out.push(s[i]);
            proof {
                if tail.len() >= 2 && tail[0] == '$' {
                    assert(tail[1] == s@[i + 1]);
                }
                assert(!token_at_start(tail));
                assert(tail.take(1) =~= seq![s@[i as int]]);
                assert(out@ =~= pre + tail.take(1));
                assert(tail.skip(1) =~= s@.skip(i + 1));
            }
            i = i + 1;
        }
    }
    proof {
        assert(s@.skip(n as int) =~= Seq::<char>::empty());
        assert(out@ + expand_chars(s@.skip(n as int), env@) =~= out@);
    }
    out
}

/// Expands every `$NAME` token in `s` against `env`.
pub fn expand_str(s: &str, env: &EnvMap) -> (r: String)
    requires
        env.wf(),
    ensures
        r@ == expand_chars(s@, env@),
{
    let chars = str_chars(s);
    let out = expand_chars_exec(&chars, env);
    string_from_chars(&out)
}

/// A string that may hold `$NAME` references to environment variables.
#[derive(Debug, Clone)]
pub struct EnvStr {
    text: String,
}

impl EnvStr {
    /// The unexpanded text.
    pub closed spec fn text(&self) -> Seq<char> {
        self.text@
    }

    /// The unexpanded text, verbatim.
    pub fn raw(&self) -> (r: &String)
        ensures
            r@ == self.text(),
    {
        &self.text
    }

    pub fn from_string(s: String) -> (r: EnvStr)
        ensures
            r.text() == s@,
    {
        EnvStr { text: s }
    }

    pub fn from_str(s: &str) -> (r: EnvStr)
        ensures
            r.text() == s@,
    {
        EnvStr { text: String::from_str(s) }
    }

    /// Expands the text against `env`: each `$NAME` token whose name is bound
    /// becomes the bound value; unresolved tokens stay verbatim.
    pub fn to_string(&self, env: &EnvMap) -> (r: String)
        requires
            env.wf(),
        ensures
            r@ == expand_chars(self.text(), env@),
    {
        expand_str(self.text.as_str(), env)
    }
}

/// Whether `s` holds no `$NAME` token at all.
pub open spec fn has_no_token(s: Seq<char>) -> bool {
    forall|i: int| 0 <= i < s.len() - 1 ==> !((#[trigger] s[i]) == '$' && is_ident_start(s[i + 1]))
}

/// Expansion of a token-free string is the identity, whatever the
/// environment holds.
pub proof fn lemma_expand_no_token_identity(s: Seq<char>, env: Map<Seq<char>, Seq<char>>)
    requires
        has_no_token(s),
    ensures
        expand_chars(s, env) == s,
    decreases s.len(),
{
    if s.len() == 0 {
    } else {
        assert(!token_at_start(s));
        let u = s.skip(1);
        assert forall|i: int| 0 <= i < u.len() - 1 implies !((#[trigger] u[i]) == '$'
            && is_ident_start(u[i + 1])) by {
            assert(u[i] == s[i + 1]);
            assert(u[i + 1] == s[i + 2]);
        }
        lemma_expand_no_token_identity(u, env);
        assert(s.take(1) + u =~= s);
    }
}

/// A token whose name is not bound in the environment is returned verbatim:
/// expanding `$NAME` followed by anything that does not extend the name
/// keeps the token's own text unchanged.
pub proof fn lemma_expand_unresolved_token(
    name: Seq<char>,
    rest: Seq<char>,
    env: Map<Seq<char>, Seq<char>>,
)
    requires
        name.len() >= 1,
        is_ident_start(name[0]),
        forall|m: int| 0 <= m < name.len() ==> is_ident_char(name[m]),
        !env.contains_key(name),
        rest.len() > 0 ==> !is_ident_char(rest[0]),
    ensures
        expand_chars(seq!['$'] + name + rest, env) == seq!['$'] + name + expand_chars(
            rest,
            env,
        ),
{
    let s = seq!['$'] + name + rest;
    assert(s[0] == '$');
    assert(s[1] == name[0]);
    assert(token_at_start(s));
    let u = s.skip(1);
    assert forall|m: int| 0 <= m < name.len() implies is_ident_char(u[m]) by {
        assert(u[m] == name[m]);
    }
    if name.len() < u.len() {
        assert(u[name.len() as int] == rest[0]);
    }
    lemma_ident_run_is(u, name.len() as int);
    let k = name.len() as int;
    assert(s.subrange(1, 1 + k) =~= name);
    assert(s.take(1 + k) =~= seq!['$'] + name);
    assert(s.skip(1 + k) =~= rest);
}

} // verus!
