use vstd::prelude::*;
use crate::strutil::{str_chars, string_from_chars};

verus! {

/// Why running or reading an external command's output failed; carried by
/// the caller that ran the command.
#[derive(Debug)]
pub enum CommandError {
    IOError(String),
    FromUtf8Error(String),
    NotImplemented,
}

/// Why harvesting a dump file's environment failed.
#[derive(Debug)]
pub enum DumpEnvError {
    IOError(String),
    FromUtf8Error(String),
    NotImplemented,
}

/// The length of the longest prefix of `s` free of `c`.
pub open spec fn run_free(s: Seq<char>, c: char) -> nat
    decreases s.len(),
{
    if s.len() > 0 && s[0] != c {
        (1 + run_free(s.drop_first(), c)) as nat
    } else {
        0
    }
}

proof fn lemma_run_free_le(s: Seq<char>, c: char)
    ensures
        run_free(s, c) <= s.len(),
    decreases s.len(),
{
    if s.len() > 0 && s[0] != c {
        lemma_run_free_le(s.drop_first(), c);
    }
}

/// `run_free` is pinned down by a `c`-free prefix and what follows it.
proof fn lemma_run_free_is(s: Seq<char>, c: char, k: int)
    requires
        0 <= k <= s.len(),
        forall|m: int| 0 <= m < k ==> s[m] != c,
        k < s.len() ==> s[k] == c,
    ensures
        run_free(s, c) == k,
    decreases s.len(),
{
    if k > 0 {
        let u = s.drop_first();
        assert forall|m: int| 0 <= m < k - 1 implies u[m] != c by {
            assert(u[m] == s[m + 1]);
        }
        if k - 1 < u.len() {
            assert(u[k - 1] == s[k]);
        }
        lemma_run_free_is(u, c, k - 1);
    }
}

/// A dump line as a key/value entry: the text before the first `=` and the
/// text after it; a line without `=` carries no entry.
pub open spec fn line_kv(line: Seq<char>) -> Option<(Seq<char>, Seq<char>)> {
    let k = run_free(line, '=') as int;
    if k == line.len() {
        None
    } else {
        Some((line.take(k), line.skip(k + 1)))
    }
}

/// The key/value entries harvested from a dump's output: one entry per
/// newline-separated line holding an `=`, in file order.
pub open spec fn parse_dump(s: Seq<char>) -> Seq<(Seq<char>, Seq<char>)>
    decreases s.len(),
    via parse_dump_decreases
{
    let k = run_free(s, '\n') as int;
    let entry = match line_kv(s.take(k)) {
        Some(p) => seq![p],
        None => Seq::<(Seq<char>, Seq<char>)>::empty(),
    };
    if k == s.len() {
        entry
    } else {
        entry + parse_dump(s.skip(k + 1))
    }
}

#[via_fn]
proof fn parse_dump_decreases(s: Seq<char>) {
    lemma_run_free_le(s, '\n');
}

/// The entry views of an executable pair list.
pub open spec fn pair_views(v: Seq<(String, String)>) -> Seq<(Seq<char>, Seq<char>)> {
    v.map_values(|p: (String, String)| (p.0@, p.1@))
}

/// The position of the first `c` in `chars` at or after `start`, or the
/// length when there is none.
fn find_from(chars: &Vec<char>, start: usize, c: char) -> (r: usize)
    requires
        start <= chars@.len(),
    ensures
        start <= r <= chars@.len(),
        r - start == run_free(chars@.skip(start as int), c),
        r < chars@.len() ==> chars@[r as int] == c,
        forall|m: int| start <= m < r ==> chars@[m] != c,
{
    let n = chars.len();
    let mut j: usize = start;
    while j < n && chars[j] != c
        invariant
            start <= j <= n,
            n == chars@.len(),
            forall|m: int| start <= m < j ==> chars@[m] != c,
        decreases n - j,
    {
        j = j + 1;
    }
    proof {
        let u = chars@.skip(start as int);
        assert forall|m: int| 0 <= m < j - start implies u[m] != c by {
            assert(u[m] == chars@[start + m]);
        }
        if j < n {
            assert(u[j - start] == chars@[j as int]);
        }
        lemma_run_free_is(u, c, j - start);
    }
    j
}

fn copy_range(chars: &Vec<char>, from: usize, to: usize) -> (r: Vec<char>)
    requires
        from <= to <= chars@.len(),
    ensures
        r@ == chars@.subrange(from as int, to as int),
{
    let mut out: Vec<char> = Vec::new();
    let mut m: usize = from;
    while m < to
        invariant
            from <= m <= to <= chars@.len(),
            out@ == chars@.subrange(from as int, m as int),
        decreases to - m,
    {
        out.push(chars[m]);
        proof {
            assert(out@ =~= chars@.subrange(from as int, m + 1));
        }
        m = m + 1;
    }
    out
}

/// Reads a sourced dump's captured output into key/value pairs: one per
/// line holding an `=`, split at the first `=`, in file order. A caller
/// merges them into its environment, later lines winning.
#[verifier::loop_isolation(false)]
pub fn parse_env_dump(out: &String) -> (r: Vec<(String, String)>)
    ensures
        pair_views(r@) == parse_dump(out@),
{
    let chars = str_chars(out.as_str());
    let n = chars.len();
    let mut acc: Vec<(String, String)> = Vec::new();
    let mut i: usize = 0;
    let mut done = false;
    proof {
        assert(chars@.skip(0) =~= chars@);
        assert(pair_views(acc@) =~= Seq::<(Seq<char>, Seq<char>)>::empty());
    }
    while !done
        invariant
            i <= n,
            !done ==> pair_views(acc@) + parse_dump(chars@.skip(i as int)) == parse_dump(
                chars@,
            ),
            done ==> pair_views(acc@) == parse_dump(chars@),
        decreases n - i + (if done { 0int } else { 1int }),
    {
        let ghost tail = chars@.skip(i as int);
        let eol = find_from(&chars, i, '\n');
        let eq = find_from(&chars, i, '=');
        proof {
            assert(run_free(tail, '\n') == eol - i);
            assert(tail.take(eol - i) =~= chars@.subrange(i as int, eol as int));
        }
        let ghost line = tail.take(eol - i);
        if eq < eol {
            let key = copy_range(&chars, i, eq);
            let value = copy_range(&chars, eq + 1, eol);
            proof {
                let u = chars@.subrange(i as int, eol as int);
                assert forall|m: int| 0 <= m < eq - i implies u[m] != '=' by {
                    assert(u[m] == chars@[i + m]);
                }
                assert(u[eq - i] == chars@[eq as int]);
                lemma_run_free_is(u, '=', eq - i);
                assert(line.take(eq - i) =~= chars@.subrange(i as int, eq as int));
                assert(line.skip(eq - i + 1) =~= chars@.subrange(eq + 1, eol as int));
                assert(line_kv(line) == Some((key@, value@)));
            }
            let ghost acc_pre = acc@;
            acc.push((string_from_chars(&key), string_from_chars(&value)));
            proof {
                assert(pair_views(acc@) =~= pair_views(acc_pre).push((key@, value@)));
            }
        } else {
            proof {
                let u = chars@.subrange(i as int, eol as int);
                assert forall|m: int| 0 <= m < eol - i implies u[m] != '=' by {
                    assert(u[m] == chars@[i + m]);
                    assert(chars@[i + m] != '=');
                }
                lemma_run_free_is(u, '=', eol - i);
                assert(line_kv(line) is None);
            }
        }
        proof {
            match line_kv(line) {
                Some(p) => {
                    assert(parse_dump(tail) == seq![p] + if eol < n {
                        parse_dump(chars@.skip(eol + 1))
                    } else {
                        Seq::<(Seq<char>, Seq<char>)>::empty()
                    }) by {
                        if eol == n {
                            assert(parse_dump(tail) =~= seq![p]);
                        } else {
                            assert(tail.skip(eol - i + 1) =~= chars@.skip(eol + 1));
                        }
                    }
                },
                None => {
                    assert(parse_dump(tail) == if eol < n {
                        parse_dump(chars@.skip(eol + 1))
                    } else {
                        Seq::<(Seq<char>, Seq<char>)>::empty()
                    }) by {
                        if eol == n {
                            assert(parse_dump(tail) =~= Seq::<(Seq<char>, Seq<char>)>::empty());
                        } else {
                            assert(tail.skip(eol - i + 1) =~= chars@.skip(eol + 1));
                        }
                    }
                },
            }
        }
        if eol < n {
            i = eol + 1;
        } else {
            i = n;
            done = true;
        }
        proof {
            if done {
                assert(pair_views(acc@) =~= parse_dump(chars@));
            } else {
                assert(pair_views(acc@) + parse_dump(chars@.skip(i as int)) =~= parse_dump(
                    chars@,
                ));
            }
        }
    }
    acc
}

} // verus!

verus! {

/// Horizontal whitespace stripped by trimming.
pub open spec fn is_space(c: char) -> bool {
    c == ' ' || c == '\t' || c == '\r'
}

/// The length of the whitespace prefix of `s`.
pub open spec fn lead_run(s: Seq<char>) -> nat
    decreases s.len(),
{
    if s.len() > 0 && is_space(s[0]) {
        (1 + lead_run(s.drop_first())) as nat
    } else {
        0
    }
}

/// The length of the whitespace suffix of `s`.
pub open spec fn trail_run(s: Seq<char>) -> nat
    decreases s.len(),
{
    if s.len() > 0 && is_space(s.last()) {
        (1 + trail_run(s.drop_last())) as nat
    } else {
        0
    }
}

/// `s` with its whitespace prefix and suffix removed.
pub open spec fn trimmed(s: Seq<char>) -> Seq<char> {
    let t = s.skip(lead_run(s) as int);
    t.take(t.len() - trail_run(t))
}

proof fn lemma_lead_run_is(s: Seq<char>, k: int)
    requires
        0 <= k <= s.len(),
        forall|m: int| 0 <= m < k ==> is_space(s[m]),
        k < s.len() ==> !is_space(s[k]),
    ensures
        lead_run(s) == k,
    decreases s.len(),
{
    if k > 0 {
        let u = s.drop_first();
        assert forall|m: int| 0 <= m < k - 1 implies is_space(u[m]) by {
            assert(u[m] == s[m + 1]);
        }
        if k - 1 < u.len() {
            assert(u[k - 1] == s[k]);
        }
        lemma_lead_run_is(u, k - 1);
    }
}

proof fn lemma_trail_run_is(s: Seq<char>, k: int)
    requires
        0 <= k <= s.len(),
        forall|m: int| s.len() - k <= m < s.len() ==> is_space(s[m]),
        k < s.len() ==> !is_space(s[s.len() - k - 1]),
    ensures
        trail_run(s) == k,
    decreases s.len(),
{
    if k > 0 {
        assert(is_space(s.last()));
        let u = s.drop_last();
        assert forall|m: int| u.len() - (k - 1) <= m < u.len() implies is_space(u[m]) by {
            assert(u[m] == s[m]);
        }
        if k - 1 < u.len() {
            assert(u[u.len() - (k - 1) - 1] == s[s.len() - k - 1]);
        }
        lemma_trail_run_is(u, k - 1);
    }
}

fn is_space_exec(c: char) -> (r: bool)
    ensures
        r == is_space(c),
{
    c == ' ' || c == '\t' || c == '\r'
}

/// The characters of `chars[from..to]` with surrounding whitespace removed.
fn trim_range(chars: &Vec<char>, from: usize, to: usize) -> (r: Vec<char>)
    requires
        from <= to <= chars@.len(),
    ensures
        r@ == trimmed(chars@.subrange(from as int, to as int)),
{
    let ghost u = chars@.subrange(from as int, to as int);
    let mut a: usize = from;
    while a < to && is_space_exec(chars[a])
        invariant
            from <= a <= to <= chars@.len(),
            forall|m: int| from <= m < a ==> is_space(chars@[m]),
        decreases to - a,
    {
        a = a + 1;
    }
    proof {
        assert forall|m: int| 0 <= m < a - from implies is_space(u[m]) by {
            assert(u[m] == chars@[from + m]);
        }
        if a < to {
            assert(u[a - from] == chars@[a as int]);
        }
        lemma_lead_run_is(u, a - from);
    }
    let mut b: usize = to;
    while b > a && is_space_exec(chars[b - 1])
        invariant
            a <= b <= to,
            to <= chars@.len(),
            forall|m: int| b <= m < to ==> is_space(chars@[m]),
        decreases b,
    {
        b = b - 1;
    }
    proof {
        let t = u.skip(a - from);
        assert forall|m: int| t.len() - (to - b) <= m < t.len() implies is_space(t[m]) by {
            assert(t[m] == chars@[a + m]);
        }
        if b > a {
            assert(t[t.len() - (to - b) - 1] == chars@[b - 1]);
        }
        lemma_trail_run_is(t, to - b);
        assert(t.take(t.len() - (to - b)) =~= chars@.subrange(a as int, b as int));
    }
    copy_range(chars, a, b)
}

/// A report line as a key/value entry: split at the first `:`, both sides
/// trimmed; a line without `:` carries no entry.
pub open spec fn line_colon_kv(line: Seq<char>) -> Option<(Seq<char>, Seq<char>)> {
    let k = run_free(line, ':') as int;
    if k == line.len() {
        None
    } else {
        Some((trimmed(line.take(k)), trimmed(line.skip(k + 1))))
    }
}

/// The entries of the report's lines, in order.
pub open spec fn parse_report_lines(s: Seq<char>) -> Seq<(Seq<char>, Seq<char>)>
    decreases s.len(),
    via parse_report_lines_decreases
{
    let k = run_free(s, '\n') as int;
    let entry = match line_colon_kv(s.take(k)) {
        Some(p) => seq![p],
        None => Seq::<(Seq<char>, Seq<char>)>::empty(),
    };
    if k == s.len() {
        entry
    } else {
        entry + parse_report_lines(s.skip(k + 1))
    }
}

#[via_fn]
proof fn parse_report_lines_decreases(s: Seq<char>) {
    lemma_run_free_le(s, '\n');
}

/// The key/value entries of a toolchain's version report: the banner line
/// is dropped, and each later line holding a `:` is split there, both
/// sides trimmed.
pub open spec fn parse_tool_report(s: Seq<char>) -> Seq<(Seq<char>, Seq<char>)> {
    let k = run_free(s, '\n') as int;
    if k == s.len() {
        Seq::empty()
    } else {
        parse_report_lines(s.skip(k + 1))
    }
}

/// Reads the captured output of the toolchain's version report (its
/// `-vV` form) into key/value pairs: the banner line is dropped, each
/// later line is split at its first `:`, and both sides are trimmed.
#[verifier::loop_isolation(false)]
pub fn parse_rustc_vv(out: &String) -> (r: Vec<(String, String)>)
    ensures
        pair_views(r@) == parse_tool_report(out@),
{
    let chars = str_chars(out.as_str());
    let n = chars.len();
    let mut acc: Vec<(String, String)> = Vec::new();
    let banner_end = find_from(&chars, 0, '\n');
    proof {
        assert(chars@.skip(0) =~= chars@);
        assert(run_free(chars@, '\n') == banner_end);
    }
    if banner_end == n {
        proof {
            assert(pair_views(acc@) =~= parse_tool_report(chars@));
        }
        return acc;
    }
    let mut i: usize = banner_end + 1;
    let mut done = false;
    proof {
        assert(pair_views(acc@) + parse_report_lines(chars@.skip(i as int))
            =~= parse_tool_report(chars@));
    }
    while !done
        invariant
            i <= n,
            !done ==> pair_views(acc@) + parse_report_lines(chars@.skip(i as int))
                == parse_tool_report(chars@),
            done ==> pair_views(acc@) == parse_tool_report(chars@),
        decreases n - i + (if done { 0int } else { 1int }),
    {
        let ghost tail = chars@.skip(i as int);
        let eol = find_from(&chars, i, '\n');
        let colon = find_from(&chars, i, ':');
        proof {
            assert(run_free(tail, '\n') == eol - i);
            assert(tail.take(eol - i) =~= chars@.subrange(i as int, eol as int));
        }
        let ghost line = tail.take(eol - i);
        if colon < eol {
            let key = trim_range(&chars, i, colon);
            let value = trim_range(&chars, colon + 1, eol);
            proof {
                let u = chars@.subrange(i as int, eol as int);
                assert forall|m: int| 0 <= m < colon - i implies u[m] != ':' by {
                    assert(u[m] == chars@[i + m]);
                }
                assert(u[colon - i] == chars@[colon as int]);
                lemma_run_free_is(u, ':', colon - i);
                assert(line.take(colon - i) =~= chars@.subrange(i as int, colon as int));
                assert(line.skip(colon - i + 1) =~= chars@.subrange(colon + 1, eol as int));
                assert(line_colon_kv(line) == Some((key@, value@)));
            }
            let ghost acc_pre = acc@;
            acc.push((string_from_chars(&key), string_from_chars(&value)));
            proof {
                assert(pair_views(acc@) =~= pair_views(acc_pre).push((key@, value@)));
            }
        } else {
            proof {
                let u = chars@.subrange(i as int, eol as int);
                assert forall|m: int| 0 <= m < eol - i implies u[m] != ':' by {
                    assert(u[m] == chars@[i + m]);
                    assert(chars@[i + m] != ':');
                }
                lemma_run_free_is(u, ':', eol - i);
                assert(line_colon_kv(line) is None);
            }
        }
        proof {
            match line_colon_kv(line) {
                Some(p) => {
                    assert(parse_report_lines(tail) == seq![p] + if eol < n {
                        parse_report_lines(chars@.skip(eol + 1))
                    } else {
                        Seq::<(Seq<char>, Seq<char>)>::empty()
                    }) by {
                        if eol == n {
                            assert(parse_report_lines(tail) =~= seq![p]);
                        } else {
                            assert(tail.skip(eol - i + 1) =~= chars@.skip(eol + 1));
                        }
                    }
                },
                None => {
                    assert(parse_report_lines(tail) == if eol < n {
                        parse_report_lines(chars@.skip(eol + 1))
                    } else {
                        Seq::<(Seq<char>, Seq<char>)>::empty()
                    }) by {
                        if eol == n {
                            assert(parse_report_lines(tail) =~= Seq::<
                                (Seq<char>, Seq<char>),
                            >::empty());
                        } else {
                            assert(tail.skip(eol - i + 1) =~= chars@.skip(eol + 1));
                        }
                    }
                },
            }
        }
        if eol < n {
            i = eol + 1;
        } else {
            i = n;
            done = true;
        }
        proof {
            if done {
                assert(pair_views(acc@) =~= parse_tool_report(chars@));
            } else {
                assert(pair_views(acc@) + parse_report_lines(chars@.skip(i as int))
                    =~= parse_tool_report(chars@));
            }
        }
    }
    acc
}

/// The first value bound to `key` among `pairs`, if any.
pub fn lookup_value<'a>(pairs: &'a Vec<(String, String)>, key: &String) -> (r: Option<
    &'a String,
>)
    ensures
        match r {
            Some(v) => crate::emit::kv_lookup(pairs@, key@) == Some(v@),
            None => crate::emit::kv_lookup(pairs@, key@) is None,
        },
{
    let n = pairs.len();
    let mut i: usize = 0;
    proof {
        assert(pairs@.skip(0) =~= pairs@);
    }
    while i < n
        invariant
            i <= n,
            n == pairs@.len(),
            crate::emit::kv_lookup(pairs@, key@) == crate::emit::kv_lookup(
                pairs@.skip(i as int),
                key@,
            ),
        decreases n - i,
    {
        proof {
            assert(pairs@.skip(i as int)[0] == pairs@[i as int]);
        }
        if pairs[i].0 == *key {
            return Some(&pairs[i].1);
        }
        proof {
            assert(pairs@.skip(i as int).drop_first() =~= pairs@.skip(i + 1));
        }
        i = i + 1;
    }
    proof {
        assert(pairs@.skip(n as int).len() == 0);
    }
    None
}

} // verus!
