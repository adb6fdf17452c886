use vstd::prelude::*;
use crate::envmap::EnvMap;
use crate::strutil::str_chars;

verus! {

/// How a resolved value combines with the variable's current value.
#[derive(Debug, Clone, Copy)]
pub enum VarAction {
    /// Overwrite the variable.
    Overwrite,
    /// Prepend to the variable, read as a colon-separated path list.
    Append,
}

/// The platform path-list separator.
pub open spec fn sep_char() -> char {
    ':'
}

/// Whether an `Append` of `value` to `key` really extends an existing list:
/// the variable must be set, and the new value must itself be free of the
/// separator (a value holding one cannot be re-joined into a list).
pub open spec fn append_applies(
    m: Map<Seq<char>, Seq<char>>,
    key: Seq<char>,
    value: Seq<char>,
) -> bool {
    m.contains_key(key) && !value.contains(sep_char())
}

/// The value actually written for `key`: `Set` writes `value`; `Append`
/// prepends `value` to the current list, and silently degrades to `Set`
/// when the variable is unset or the value cannot be joined.
pub open spec fn effective_value(
    a: VarAction,
    m: Map<Seq<char>, Seq<char>>,
    key: Seq<char>,
    value: Seq<char>,
) -> Seq<char> {
    match a {
        VarAction::Overwrite => value,
        VarAction::Append => if append_applies(m, key, value) {
            value + seq![sep_char()] + m[key]
        } else {
            value
        },
    }
}

/// Appending to an unset variable behaves exactly like setting it.
pub proof fn lemma_append_unset_is_set(
    m: Map<Seq<char>, Seq<char>>,
    key: Seq<char>,
    value: Seq<char>,
)
    requires
        !m.contains_key(key),
    ensures
        effective_value(VarAction::Append, m, key, value) == effective_value(
            VarAction::Overwrite,
            m,
            key,
            value,
        ),
{
}

/// Appending to a set variable prepends the new entry and keeps the whole
/// existing list, verbatim, as the suffix.
pub proof fn lemma_append_prepends(
    m: Map<Seq<char>, Seq<char>>,
    key: Seq<char>,
    value: Seq<char>,
)
    requires
        m.contains_key(key),
        !value.contains(sep_char()),
    ensures
        effective_value(VarAction::Append, m, key, value) == value + seq![sep_char()]
            + m[key],
{
}

fn contains_sep(s: &String) -> (r: bool)
    ensures
        r == s@.contains(sep_char()),
{
    let chars = str_chars(s.as_str());
    let n = chars.len();
    let mut i: usize = 0;
    while i < n
        invariant
            i <= n,
            n == chars@.len(),
            chars@ == s@,
            forall|j: int| 0 <= j < i ==> chars@[j] != sep_char(),
        decreases n - i,
    {
        if chars[i] == ':' {
            return true;
        }
        i = i + 1;
    }
    false
}

impl VarAction {
    /// Writes the effective value for `key` into `env` and returns the pair
    /// actually written.
    pub fn convert(&self, key: String, value: String, env: &mut EnvMap) -> (r: (
        String,
        String,
    ))
        requires
            old(env).wf(),
        ensures
            final(env).wf(),
            r.0@ == key@,
            r.1@ == effective_value(*self, old(env)@, key@, value@),
            final(env)@ == old(env)@.insert(key@, r.1@),
    {
        let effective: String = match self {
            VarAction::Overwrite => value,
            VarAction::Append => {
                let has_sep = contains_sep(&value);
                let existing: Option<String> = match env.get(&key) {
                    Some(v) => Some(v.clone()),
                    None => None,
                };
                match existing {
                    Some(ex) => {
                        if has_sep {
                            value
                        } else {
                            let joined = value.concat(":").concat(ex.as_str());
                            proof {
                                reveal_strlit(":");
                                assert(":"@ =~= seq![sep_char()]);
                            }
                            joined
                        }
                    },
                    None => value,
                }
            },
        };
        env.set(key.clone(), effective.clone());
        (key, effective)
    }

    /// Writes the effective value for `key` into `env`; the result reports
    /// whether an `Append` really extended an existing list (`Set`, and the
    /// silent fallback to it, report `true` and `false` respectively).
    pub fn do_action(&self, key: &String, value: &String, env: &mut EnvMap) -> (r: bool)
        requires
            old(env).wf(),
        ensures
            final(env).wf(),
            final(env)@ == old(env)@.insert(
                key@,
                effective_value(*self, old(env)@, key@, value@),
            ),
            r == match *self {
                VarAction::Overwrite => true,
                VarAction::Append => append_applies(old(env)@, key@, value@),
            },
    {
        let ok = match self {
            VarAction::Overwrite => true,
            VarAction::Append => env.contains(key) && !contains_sep(value),
        };
        let _ = self.convert(key.clone(), value.clone(), env);
        ok
    }
}

} // verus!
