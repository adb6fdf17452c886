use vstd::prelude::*;
use crate::envmap::EnvMap;
use crate::strutil::{str_chars, string_from_chars};

verus! {

/// How a link's source path is obtained.
#[derive(Debug, Clone, Copy)]
pub enum LinkSourceType {
    /// The value is the source path itself.
    Direct,
    /// The value names an environment variable holding the source path.
    Env,
}

/// Why a link could not be planned or created.
#[derive(Debug)]
pub enum LinkError {
    /// Creating the link on disk failed; the message describes the failure.
    IOError(String),
    /// The named environment variable is not set.
    VarError,
}

/// A symbolic link to materialize in the working directory.
#[derive(Debug, Clone)]
pub struct LinkSource {
    source_type: LinkSourceType,
    value: String,
}

/// The final path component: everything after the last slash, or the whole
/// string when it has none.
pub open spec fn base_name(s: Seq<char>) -> Seq<char>
    decreases s.len(),
{
    if s.len() == 0 {
        s
    } else if s.last() == '/' {
        Seq::empty()
    } else {
        base_name(s.drop_last()).push(s.last())
    }
}

proof fn lemma_base_name_suffix(s: Seq<char>, k: int)
    requires
        0 <= k <= s.len(),
        forall|m: int| k <= m < s.len() ==> s[m] != '/',
        k > 0 ==> s[k - 1] == '/',
    ensures
        base_name(s) == s.skip(k),
    decreases s.len(),
{
    if k == s.len() {
        assert(s.skip(k) =~= Seq::<char>::empty());
        if k > 0 {
            assert(s.last() == '/');
        }
    } else {
        assert(s.last() != '/');
        lemma_base_name_suffix(s.drop_last(), k);
        assert(base_name(s) == s.drop_last().skip(k).push(s.last()));
        assert(s.drop_last().skip(k).push(s.last()) =~= s.skip(k));
    }
}

/// The path of the link itself: the target directory joined with the
/// source's base name.
pub open spec fn link_path(dir: Seq<char>, source: Seq<char>) -> Seq<char> {
    dir + seq!['/'] + base_name(source)
}

/// The final path component of `s`.
pub fn base_name_exec(s: &String) -> (r: String)
    ensures
        r@ == base_name(s@),
{
    let chars = str_chars(s.as_str());
    let n = chars.len();
    // the index right after the last slash, or zero
    let mut k: usize = 0;
    let mut i: usize = 0;
    while i < n
        invariant
            i <= n,
            n == chars@.len(),
            chars@ == s@,
            k <= i,
            k > 0 ==> chars@[k - 1] == '/',
            forall|m: int| k <= m < i ==> chars@[m] != '/',
        decreases n - i,
    {
        if chars[i] == '/' {
            k = i + 1;
        }
        i = i + 1;
    }
    let mut out: Vec<char> = Vec::new();
    let mut j: usize = k;
    while j < n
        invariant
            k <= j <= n,
            n == chars@.len(),
            out@ == chars@.subrange(k as int, j as int),
        decreases n - j,
    {
        out.push(chars[j]);
        proof {
            assert(out@ =~= chars@.subrange(k as int, j + 1));
        }
        j = j + 1;
    }
    proof {
        lemma_base_name_suffix(s@, k as int);
        assert(out@ =~= s@.skip(k as int));
    }
    string_from_chars(&out)
}

/// Joins `dir` and the base name of `source` into the link's own path.
pub fn link_path_exec(dir: &String, source: &String) -> (r: String)
    ensures
        r@ == link_path(dir@, source@),
{
    let base = base_name_exec(source);
    let r = dir.clone().concat("/").concat(base.as_str());
    proof {
        reveal_strlit("/");
        assert("/"@ =~= seq!['/']);
    }
    r
}

impl LinkSource {
    pub closed spec fn spec_source_type(&self) -> LinkSourceType {
        self.source_type
    }

    pub closed spec fn spec_value(&self) -> Seq<char> {
        self.value@
    }

    pub fn source_type(&self) -> (r: &LinkSourceType)
        ensures
            *r == self.spec_source_type(),
    {
        &self.source_type
    }

    pub fn value(&self) -> (r: &String)
        ensures
            r@ == self.spec_value(),
    {
        &self.value
    }

    pub fn new(source_type: LinkSourceType, value: String) -> (r: LinkSource)
        ensures
            r.spec_source_type() == source_type,
            r.spec_value() == value@,
    {
        LinkSource { source_type, value }
    }

    /// Resolves the link's source path against `env`: a `Direct` source is
    /// its own path; an `Env` source reads the named variable, and fails
    /// with `VarError` exactly when that variable is unset.
    pub fn source_path(&self, env: &EnvMap) -> (r: Result<String, LinkError>)
        requires
            env.wf(),
        ensures
            match self.spec_source_type() {
                LinkSourceType::Direct => r matches Ok(s) && s@ == self.spec_value(),
                LinkSourceType::Env => match r {
                    Ok(s) => env@.contains_key(self.spec_value()) && s@
                        == env@[self.spec_value()],
                    Err(e) => !env@.contains_key(self.spec_value()) && e matches
                        LinkError::VarError,
                },
            },
    {
        match self.source_type {
            LinkSourceType::Direct => Ok(self.value.clone()),
            LinkSourceType::Env => match env.get(&self.value) {
                Some(v) => Ok(v.clone()),
                None => Err(LinkError::VarError),
            },
        }
    }

    /// Plans the link for the directory `link_dir`: resolves the source and
    /// computes the path the link itself will get, without touching disk.
    pub fn plan(&self, link_dir: &String, env: &EnvMap) -> (r: Result<
        (String, String),
        LinkError,
    >)
        requires
            env.wf(),
        ensures
            match r {
                Ok(p) => p.1@ == link_path(link_dir@, p.0@) && match self.spec_source_type() {
                    LinkSourceType::Direct => p.0@ == self.spec_value(),
                    LinkSourceType::Env => env@.contains_key(self.spec_value()) && p.0@
                        == env@[self.spec_value()],
                },
                Err(e) => self.spec_source_type() matches LinkSourceType::Env
                    && !env@.contains_key(self.spec_value()) && e matches LinkError::VarError,
            },
    {
        match self.source_path(env) {
            Ok(source) => {
                let link = link_path_exec(link_dir, &source);
                Ok((source, link))
            },
            Err(e) => Err(e),
        }
    }
}

} // verus!
