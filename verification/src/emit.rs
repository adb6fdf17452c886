use vstd::prelude::*;
use crate::strutil::{dec_chars, usize_to_string};

verus! {

/// Relies on `num_cpus::get`: the number of logical CPUs available to this
/// process, documented to always be at least one.
#[verifier::external_body]
fn cpu_count() -> (n: usize)
    ensures
        1 <= n,
{
    num_cpus::get()
}

/// The `[build]` section of the emitted configuration.
#[derive(Debug)]
pub struct Build {
    pub jobs: usize,
    pub target: Option<String>,
    pub rustflags: Vec<String>,
}

impl Build {
    /// A build section for an explicit target, with the host's logical core
    /// count as the parallelism hint.
    pub fn with_target(target: String, rustflags: Vec<String>) -> (r: Build)
        ensures
            r.jobs >= 1,
            r.target == Some(target),
            r.rustflags == rustflags,
    {
        Build { jobs: cpu_count(), target: Some(target), rustflags }
    }

    /// A build section for a host build: no target recorded.
    pub fn empty_target(rustflags: Vec<String>) -> (r: Build)
        ensures
            r.jobs >= 1,
            r.target is None,
            r.rustflags == rustflags,
    {
        Build { jobs: cpu_count(), target: None, rustflags }
    }
}

/// The first value bound to `k` in a key/value row list.
pub open spec fn kv_lookup(rows: Seq<(String, String)>, k: Seq<char>) -> Option<Seq<char>>
    decreases rows.len(),
{
    if rows.len() == 0 {
        None
    } else if rows[0].0@ == k {
        Some(rows[0].1@)
    } else {
        kv_lookup(rows.drop_first(), k)
    }
}

/// The value under target `tgt` and key `k` in a per-target table.
pub open spec fn table_lookup(
    tbl: Seq<(String, Vec<(String, String)>)>,
    tgt: Seq<char>,
    k: Seq<char>,
) -> Option<Seq<char>>
    decreases tbl.len(),
{
    if tbl.len() == 0 {
        None
    } else if tbl[0].0@ == tgt {
        kv_lookup(tbl[0].1@, k)
    } else {
        table_lookup(tbl.drop_first(), tgt, k)
    }
}

/// The emitted configuration: aliases, the build section, the environment
/// table and the per-target tables.
#[derive(Debug)]
pub struct Config {
    pub alias: Vec<(String, String)>,
    pub build: Build,
    pub env: Vec<(String, String)>,
    pub target: Vec<(String, Vec<(String, String)>)>,
}

impl Config {
    /// The key under which a target's runner indirection is recorded.
    pub fn runner_key() -> (r: &'static str)
        ensures
            r@ == "runner"@,
    {
        "runner"
    }

    /// The key under which a target's linker override is recorded.
    pub fn linker_key() -> (r: &'static str)
        ensures
            r@ == "linker"@,
    {
        "linker"
    }

    /// A table holding exactly one value for one target.
    pub fn target_mono(target: String, key: String, value: String) -> (r: Vec<
        (String, Vec<(String, String)>),
    >)
        ensures
            r@.len() == 1,
            r@[0].0 == target,
            r@[0].1@.len() == 1,
            r@[0].1@[0].0 == key,
            r@[0].1@[0].1 == value,
    {
        let mut rows: Vec<(String, String)> = Vec::new();
        rows.push((key, value));
        let mut tbl: Vec<(String, Vec<(String, String)>)> = Vec::new();
        tbl.push((target, rows));
        tbl
    }

    /// The value recorded for `target` and `key`, if any.
    pub fn target_val(&self, target: &String, key: &String) -> (r: Option<&String>)
        ensures
            match r {
                Some(v) => table_lookup(self.target@, target@, key@) == Some(v@),
                None => table_lookup(self.target@, target@, key@) is None,
            },
    {
        let n = self.target.len();
        let mut i: usize = 0;
        proof {
            assert(self.target@.skip(0) =~= self.target@);
        }
        while i < n
            invariant
                i <= n,
                n == self.target@.len(),
                table_lookup(self.target@, target@, key@) == table_lookup(
                    self.target@.skip(i as int),
                    target@,
                    key@,
                ),
            decreases n - i,
        {
            proof {
                assert(self.target@.skip(i as int)[0] == self.target@[i as int]);
            }
            if self.target[i].0 == *target {
                let rows = &self.target[i].1;
                proof {
                    assert(table_lookup(self.target@.skip(i as int), target@, key@)
                        == kv_lookup(rows@, key@));
                    assert(rows@.skip(0) =~= rows@);
                }
                let m = rows.len();
                let mut j: usize = 0;
                while j < m
                    invariant
                        j <= m,
                        m == rows@.len(),
                        table_lookup(self.target@, target@, key@) == kv_lookup(rows@, key@),
                        kv_lookup(rows@, key@) == kv_lookup(rows@.skip(j as int), key@),
                    decreases m - j,
                {
                    proof {
                        assert(rows@.skip(j as int)[0] == rows@[j as int]);
                    }
                    if rows[j].0 == *key {
                        proof {
                            assert(kv_lookup(rows@.skip(j as int), key@) == Some(
                                rows@[j as int].1@,
                            ));
                        }
                        return Some(&rows[j].1);
                    }
                    proof {
                        assert(rows@.skip(j as int).drop_first() =~= rows@.skip(j + 1));
                    }
                    j = j + 1;
                }
                proof {
                    assert(rows@.skip(m as int).len() == 0);
                }
                return None;
            }
            proof {
                assert(self.target@.skip(i as int).drop_first() =~= self.target@.skip(i + 1));
            }
            i = i + 1;
        }
        proof {
            assert(self.target@.skip(n as int).len() == 0);
        }
        None
    }
}

/// The rendered `K = "V"` lines of an environment table, in order.
pub open spec fn env_lines(pairs: Seq<(String, String)>) -> Seq<char>
    decreases pairs.len(),
{
    if pairs.len() == 0 {
        Seq::empty()
    } else {
        env_lines(pairs.drop_last()) + pairs.last().0@ + " = \""@ + pairs.last().1@ + "\"\n"@
    }
}

/// A configuration file body, built section by section.
pub struct CargoConfigFile {
    content: String,
}

impl CargoConfigFile {
    /// The file's full text.
    pub closed spec fn text(&self) -> Seq<char> {
        self.content@
    }

    pub fn empty() -> (r: CargoConfigFile)
        ensures
            r.text() == Seq::<char>::empty(),
    {
        CargoConfigFile { content: String::new() }
    }

    /// An `[env]` section holding one quoted line per pair, in order.
    pub fn from_env_pairs(env_pairs: &Vec<(String, String)>) -> (r: CargoConfigFile)
        ensures
            r.text() == "[env]\n\n"@ + env_lines(env_pairs@),
    {
        let mut content = String::from_str("[env]\n\n");
        let n = env_pairs.len();
        let mut i: usize = 0;
        proof {
            assert(env_lines(env_pairs@.take(0)) =~= Seq::<char>::empty());
            assert(content@ =~= "[env]\n\n"@ + env_lines(env_pairs@.take(0)));
        }
        while i < n
            invariant
                i <= n,
                n == env_pairs@.len(),
                content@ == "[env]\n\n"@ + env_lines(env_pairs@.take(i as int)),
            decreases n - i,
        {
            content.append(env_pairs[i].0.as_str());
            content.append(" = \"");
            content.append(env_pairs[i].1.as_str());
            content.append("\"\n");
            proof {
                assert(env_pairs@.take(i + 1).drop_last() =~= env_pairs@.take(i as int));
                assert(env_pairs@.take(i + 1).last() == env_pairs@[i as int]);
                assert(content@ =~= "[env]\n\n"@ + env_lines(env_pairs@.take(i + 1)));
            }
            i = i + 1;
        }
        proof {
            assert(env_pairs@.take(n as int) =~= env_pairs@);
        }
        CargoConfigFile { content }
    }

    /// A `[target.<triple>]` section recording a linker override.
    pub fn from_target_options(target_triple: &String, linker: &String) -> (r: CargoConfigFile)
        ensures
            r.text() == "[target."@ + target_triple@ + "]\n\nlinker = \""@ + linker@ + "\""@,
    {
        let mut content = String::from_str("[target.");
        content.append(target_triple.as_str());
        content.append("]\n\nlinker = \"");
        content.append(linker.as_str());
        content.append("\"");
        CargoConfigFile { content }
    }

    /// A `[build]` section recording the default target and the host's
    /// logical core count as the job hint.
    pub fn from_build_options(default_target: &String) -> (r: CargoConfigFile)
        ensures
            exists|n: usize|
                1 <= n && r.text() == "[build]\n\ntarget = \""@ + default_target@
                    + "\"\njobs = "@ + dec_chars(n as nat),
    {
        let jobs = cpu_count();
        let jobs_text = usize_to_string(jobs);
        let mut content = String::from_str("[build]\n\ntarget = \"");
        content.append(default_target.as_str());
        content.append("\"\njobs = ");
        content.append(jobs_text.as_str());
        proof {
            assert(1 <= jobs && content@ == "[build]\n\ntarget = \""@ + default_target@
                + "\"\njobs = "@ + dec_chars(jobs as nat));
        }
        CargoConfigFile { content }
    }

    /// This file's text followed by another's.
    pub fn concat(self, rhs: CargoConfigFile) -> (r: CargoConfigFile)
        ensures
            r.text() == self.text() + rhs.text(),
    {
        CargoConfigFile { content: self.content.concat(rhs.content.as_str()) }
    }

    /// Hands the finished text to the caller, which persists it.
    pub fn into_content(self) -> (r: String)
        ensures
            r@ == self.text(),
    {
        self.content
    }
}

} // verus!

verus! {

/// Looking a key up in a table reads exactly the first row bearing the
/// target's name.
proof fn lemma_table_first(
    tbl: Seq<(String, Vec<(String, String)>)>,
    i: int,
    t: Seq<char>,
    k2: Seq<char>,
)
    requires
        0 <= i < tbl.len(),
        tbl[i].0@ == t,
        forall|m: int| 0 <= m < i ==> (#[trigger] tbl[m].0@) != t,
    ensures
        table_lookup(tbl, t, k2) == kv_lookup(tbl[i].1@, k2),
    decreases tbl.len(),
{
    if i > 0 {
        assert(tbl.drop_first()[i - 1] == tbl[i]);
        assert forall|m: int| 0 <= m < i - 1 implies (#[trigger] tbl.drop_first()[m].0@)
            != t by {
            assert(tbl.drop_first()[m] == tbl[m + 1]);
        }
        lemma_table_first(tbl.drop_first(), i - 1, t, k2);
    }
}

proof fn lemma_kv_first(rows: Seq<(String, String)>, j: int, k: Seq<char>)
    requires
        0 <= j < rows.len(),
        rows[j].0@ == k,
        forall|m: int| 0 <= m < j ==> (#[trigger] rows[m].0@) != k,
    ensures
        kv_lookup(rows, k) == Some(rows[j].1@),
    decreases rows.len(),
{
    if j > 0 {
        assert(rows.drop_first()[j - 1] == rows[j]);
        assert forall|m: int| 0 <= m < j - 1 implies (#[trigger] rows.drop_first()[m].0@)
            != k by {
            assert(rows.drop_first()[m] == rows[m + 1]);
        }
        lemma_kv_first(rows.drop_first(), j - 1, k);
    }
}

proof fn lemma_kv_none(rows: Seq<(String, String)>, k: Seq<char>)
    requires
        forall|p: int| 0 <= p < rows.len() ==> (#[trigger] rows[p].0@) != k,
    ensures
        kv_lookup(rows, k) is None,
    decreases rows.len(),
{
    if rows.len() > 0 {
        assert forall|p: int| 0 <= p < rows.drop_first().len() implies (#[trigger] rows
            .drop_first()[p].0@) != k by {
            assert(rows.drop_first()[p] == rows[p + 1]);
        }
        lemma_kv_none(rows.drop_first(), k);
    }
}

proof fn lemma_table_none(tbl: Seq<(String, Vec<(String, String)>)>, t: Seq<char>, k2: Seq<char>)
    requires
        forall|m: int| 0 <= m < tbl.len() ==> (#[trigger] tbl[m].0@) != t,
    ensures
        table_lookup(tbl, t, k2) is None,
    decreases tbl.len(),
{
    if tbl.len() > 0 {
        assert forall|m: int| 0 <= m < tbl.drop_first().len() implies (#[trigger] tbl
            .drop_first()[m].0@) != t by {
            assert(tbl.drop_first()[m] == tbl[m + 1]);
        }
        lemma_table_none(tbl.drop_first(), t, k2);
    }
}

proof fn lemma_kv_update(rows: Seq<(String, String)>, j: int, key: String, value: String, k2: Seq<
    char,
>)
    requires
        0 <= j < rows.len(),
        rows[j].0@ == key@,
        forall|m: int| 0 <= m < j ==> (#[trigger] rows[m].0@) != key@,
    ensures
        kv_lookup(rows.update(j, (key, value)), k2) == if k2 == key@ {
            Some(value@)
        } else {
            kv_lookup(rows, k2)
        },
    decreases rows.len(),
{
    let upd = rows.update(j, (key, value));
    if j == 0 {
        assert(upd[0] == (key, value));
        if k2 != key@ {
            assert(upd.drop_first() =~= rows.drop_first());
            assert(rows[0].0@ == key@);
        }
    } else {
        assert(upd[0] == rows[0]);
        assert(upd.drop_first() =~= rows.drop_first().update(j - 1, (key, value)));
        assert(rows.drop_first()[j - 1] == rows[j]);
        assert forall|m: int| 0 <= m < j - 1 implies (#[trigger] rows.drop_first()[m].0@)
            != key@ by {
            assert(rows.drop_first()[m] == rows[m + 1]);
        }
        lemma_kv_update(rows.drop_first(), j - 1, key, value, k2);
        assert(rows[0].0@ != key@);
    }
}

proof fn lemma_kv_push(rows: Seq<(String, String)>, key: String, value: String, k2: Seq<char>)
    requires
        forall|m: int| 0 <= m < rows.len() ==> (#[trigger] rows[m].0@) != key@,
    ensures
        kv_lookup(rows.push((key, value)), k2) == if k2 == key@ {
            Some(value@)
        } else {
            kv_lookup(rows, k2)
        },
    decreases rows.len(),
{
    let ext = rows.push((key, value));
    if rows.len() == 0 {
        assert(ext[0] == (key, value));
        if k2 != key@ {
            assert(ext.drop_first() =~= Seq::<(String, String)>::empty());
            assert(kv_lookup(ext.drop_first(), k2) is None);
        }
    } else {
        assert(ext[0] == rows[0]);
        assert(ext.drop_first() =~= rows.drop_first().push((key, value)));
        assert forall|m: int| 0 <= m < rows.drop_first().len() implies (#[trigger] rows
            .drop_first()[m].0@) != key@ by {
            assert(rows.drop_first()[m] == rows[m + 1]);
        }
        lemma_kv_push(rows.drop_first(), key, value, k2);
        assert(rows[0].0@ != key@);
    }
}

proof fn lemma_table_update(
    tbl: Seq<(String, Vec<(String, String)>)>,
    i: int,
    rows2: Vec<(String, String)>,
    t2: Seq<char>,
    k2: Seq<char>,
)
    requires
        0 <= i < tbl.len(),
        forall|m: int| 0 <= m < i ==> (#[trigger] tbl[m].0@) != tbl[i].0@,
    ensures
        table_lookup(tbl.update(i, (tbl[i].0, rows2)), t2, k2) == if t2 == tbl[i].0@ {
            kv_lookup(rows2@, k2)
        } else {
            table_lookup(tbl, t2, k2)
        },
    decreases tbl.len(),
{
    let upd = tbl.update(i, (tbl[i].0, rows2));
    if i == 0 {
        assert(upd[0] == (tbl[0].0, rows2));
        if t2 != tbl[i].0@ {
            assert(upd.drop_first() =~= tbl.drop_first());
        }
    } else {
        assert(upd[0] == tbl[0]);
        assert(upd.drop_first() =~= tbl.drop_first().update(i - 1, (tbl[i].0, rows2)));
        assert(tbl.drop_first()[i - 1] == tbl[i]);
        assert forall|m: int| 0 <= m < i - 1 implies (#[trigger] tbl.drop_first()[m].0@)
            != tbl[i].0@ by {
            assert(tbl.drop_first()[m] == tbl[m + 1]);
        }
        lemma_table_update(tbl.drop_first(), i - 1, rows2, t2, k2);
        assert(tbl[0].0@ != tbl[i].0@);
    }
}

proof fn lemma_table_push(
    tbl: Seq<(String, Vec<(String, String)>)>,
    target: String,
    rows2: Vec<(String, String)>,
    t2: Seq<char>,
    k2: Seq<char>,
)
    requires
        forall|m: int| 0 <= m < tbl.len() ==> (#[trigger] tbl[m].0@) != target@,
    ensures
        table_lookup(tbl.push((target, rows2)), t2, k2) == if t2 == target@ {
            kv_lookup(rows2@, k2)
        } else {
            table_lookup(tbl, t2, k2)
        },
    decreases tbl.len(),
{
    let ext = tbl.push((target, rows2));
    if tbl.len() == 0 {
        assert(ext[0] == (target, rows2));
        if t2 != target@ {
            assert(ext.drop_first() =~= Seq::<(String, Vec<(String, String)>)>::empty());
            assert(table_lookup(ext.drop_first(), t2, k2) is None);
        }
    } else {
        assert(ext[0] == tbl[0]);
        assert(ext.drop_first() =~= tbl.drop_first().push((target, rows2)));
        assert forall|m: int| 0 <= m < tbl.drop_first().len() implies (#[trigger] tbl
            .drop_first()[m].0@) != target@ by {
            assert(tbl.drop_first()[m] == tbl[m + 1]);
        }
        lemma_table_push(tbl.drop_first(), target, rows2, t2, k2);
    }
}

impl Config {
    fn find_target_row(&self, target: &String) -> (r: Option<usize>)
        ensures
            match r {
                Some(i) => i < self.target@.len() && self.target@[i as int].0@ == target@
                    && forall|m: int| 0 <= m < i ==> (#[trigger] self.target@[m].0@) != target@,
                None => forall|m: int|
                    0 <= m < self.target@.len() ==> (#[trigger] self.target@[m].0@) != target@,
            },
    {
        let n = self.target.len();
        let mut i: usize = 0;
        while i < n
            invariant
                i <= n,
                n == self.target@.len(),
                forall|m: int| 0 <= m < i ==> (#[trigger] self.target@[m].0@) != target@,
            decreases n - i,
        {
            if self.target[i].0 == *target {
                return Some(i);
            }
            i = i + 1;
        }
        None
    }

    fn find_row_key(rows: &Vec<(String, String)>, key: &String) -> (r: Option<usize>)
        ensures
            match r {
                Some(j) => j < rows@.len() && rows@[j as int].0@ == key@ && forall|m: int|
                    0 <= m < j ==> (#[trigger] rows@[m].0@) != key@,
                None => forall|m: int|
                    0 <= m < rows@.len() ==> (#[trigger] rows@[m].0@) != key@,
            },
    {
        let n = rows.len();
        let mut j: usize = 0;
        while j < n
            invariant
                j <= n,
                n == rows@.len(),
                forall|m: int| 0 <= m < j ==> (#[trigger] rows@[m].0@) != key@,
            decreases n - j,
        {
            if rows[j].0 == *key {
                return Some(j);
            }
            j = j + 1;
        }
        None
    }

    /// Records `value` under `target` and `key`, creating the target's row
    /// when it is absent, and returns the value it replaced, if any. Every
    /// other recorded value is kept.
    pub fn set_target_val(&mut self, target: String, key: String, value: String) -> (r: Option<
        String,
    >)
        ensures
            table_lookup(final(self).target@, target@, key@) == Some(value@),
            match r {
                Some(old_v) => table_lookup(old(self).target@, target@, key@) == Some(old_v@),
                None => table_lookup(old(self).target@, target@, key@) is None,
            },
            forall|t2: Seq<char>, k2: Seq<char>|
                t2 != target@ || k2 != key@ ==> #[trigger] table_lookup(
                    final(self).target@,
                    t2,
                    k2,
                ) == table_lookup(old(self).target@, t2, k2),
            final(self).alias == old(self).alias,
            final(self).build == old(self).build,
            final(self).env == old(self).env,
    {
        let ghost tbl0 = self.target@;
        match self.find_target_row(&target) {
            Some(i) => {
                let ghost rows0 = self.target@[i as int].1@;
                match Config::find_row_key(&self.target[i].1, &key) {
                    Some(j) => {
                        let old_v = self.target[i].1[j].1.clone();
                        let row = &mut self.target[i];
                        row.1[j] = (key, value);
                        proof {
                            let rows2 = final(row).1;
                            assert(rows2@ =~= rows0.update(
                                j as int,
                                (rows2@[j as int].0, rows2@[j as int].1),
                            ));
                            assert(self.target@ =~= tbl0.update(i as int, (tbl0[i as int].0, rows2)));
                            lemma_kv_first(rows0, j as int, key@);
                            lemma_table_first(tbl0, i as int, target@, key@);
                            assert(old_v@ == rows0[j as int].1@);
                            assert forall|t2: Seq<char>, k2: Seq<char>|
                                t2 != target@ || k2 != key@ implies #[trigger] table_lookup(
                                self.target@,
                                t2,
                                k2,
                            ) == table_lookup(tbl0, t2, k2) by {
                                lemma_kv_update(rows0, j as int, rows2@[j as int].0, rows2@[
                                    j as int].1, k2);
                                lemma_table_update(tbl0, i as int, rows2, t2, k2);
                                if t2 == target@ {
                                    lemma_table_first(tbl0, i as int, target@, k2);
                                }
                            }
                            lemma_kv_update(rows0, j as int, rows2@[j as int].0, rows2@[
                                j as int].1, key@);
                            lemma_table_update(tbl0, i as int, rows2, target@, key@);
                        }
                        Some(old_v)
                    },
                    None => {
                        let row = &mut self.target[i];
                        row.1.push((key, value));
                        proof {
                            let rows2 = final(row).1;
                            assert(rows2@ =~= rows0.push(
                                (rows2@[rows2@.len() - 1].0, rows2@[rows2@.len() - 1].1),
                            ));
                            assert(self.target@ =~= tbl0.update(i as int, (tbl0[i as int].0, rows2)));
                            lemma_kv_none(rows0, key@);
                            lemma_table_first(tbl0, i as int, target@, key@);
                            assert forall|t2: Seq<char>, k2: Seq<char>|
                                t2 != target@ || k2 != key@ implies #[trigger] table_lookup(
                                self.target@,
                                t2,
                                k2,
                            ) == table_lookup(tbl0, t2, k2) by {
                                lemma_kv_push(rows0, rows2@[rows2@.len() - 1].0, rows2@[rows2@.len()
                                    - 1].1, k2);
                                lemma_table_update(tbl0, i as int, rows2, t2, k2);
                                if t2 == target@ {
                                    lemma_table_first(tbl0, i as int, target@, k2);
                                }
                            }
                            lemma_kv_push(rows0, rows2@[rows2@.len() - 1].0, rows2@[rows2@.len()
                                - 1].1, key@);
                            lemma_table_update(tbl0, i as int, rows2, target@, key@);
                        }
                        None
                    },
                }
            },
            None => {
                let mut rows2: Vec<(String, String)> = Vec::new();
                rows2.push((key, value));
                let ghost rows2g = rows2;
                self.target.push((target, rows2));
                proof {
                    let pushed = self.target@[self.target@.len() - 1];
                    assert(self.target@ =~= tbl0.push((pushed.0, pushed.1)));
                    lemma_table_none(tbl0, pushed.0@, pushed.1@[0].0@);
                    assert forall|t2: Seq<char>, k2: Seq<char>|
                        t2 != pushed.0@ || k2 != pushed.1@[0].0@ implies #[trigger] table_lookup(
                        self.target@,
                        t2,
                        k2,
                    ) == table_lookup(tbl0, t2, k2) by {
                        lemma_table_push(tbl0, pushed.0, pushed.1, t2, k2);
                        if t2 == pushed.0@ {
                            lemma_table_none(tbl0, t2, k2);
                            assert(kv_lookup(pushed.1@, k2) is None) by {
                                lemma_kv_none(pushed.1@, k2);
                            }
                        }
                    }
                    lemma_table_push(tbl0, pushed.0, pushed.1, pushed.0@, pushed.1@[0].0@);
                    assert(kv_lookup(pushed.1@, pushed.1@[0].0@) == Some(pushed.1@[0].1@));
                }
                None
            },
        }
    }
}

/// The one field read from the package manifest: the artifact's name.
#[derive(Debug)]
pub struct Package {
    pub name: String,
}

/// The package manifest, as far as this tool reads it.
#[derive(Debug)]
pub struct Cargo {
    pub package: Package,
}

} // verus!
