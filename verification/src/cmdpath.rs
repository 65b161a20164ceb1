//! Finding an agent's command-line tool: the files to look for along the
//! search path, and the Node.js program and script that an npm `.cmd`
//! wrapper runs.
use crate::text::{
    chars_of, contains_chars, contains_seq, ends_with, matches_at, owned, push_all, string_from_chars,
    trim_bounds, trim_seq,
};
use vstd::prelude::*;

verus! {

broadcast use vstd::string::group_string_axioms;

/// The search path with the registry's `Path` after the process's, joined
/// by `;`: the process's alone where the registry gives none or an empty
/// one, the registry's alone where the process's is empty.
pub open spec fn merged_path(current: Seq<char>, registry: Option<Seq<char>>) -> Seq<char> {
    match registry {
        Some(reg) => if reg.len() == 0 {
            current
        } else if current.len() == 0 {
            reg
        } else {
            current + seq![';'] + reg
        },
        None => current,
    }
}

/// Joins the process's search path and the one the registry stores.
pub fn get_merged_path(current: &str, registry: Option<String>) -> (r: String)
    ensures
        r@ == merged_path(current@, match registry {
            Some(x) => Some(x@),
            None => None,
        }),
{
    match registry {
        Some(reg) => {
            if reg.as_str().is_empty() {
                return owned(current);
            }
            if current.is_empty() {
                return reg;
            }
            let mut v = chars_of(current);
            v.push(';');
            let rv = chars_of(reg.as_str());
            push_all(&mut v, rv.as_slice());
            let r = string_from_chars(v.as_slice());
            assert(r@ =~= current@ + seq![';'] + reg@);
            r
        },
        None => owned(current),
    }
}

/// `str::split` by one character: the pieces between separators, empty
/// ones included.
pub open spec fn split_on(s: Seq<char>, c: char) -> Seq<Seq<char>>
    decreases s.len(),
{
    if s.len() == 0 {
        seq![Seq::empty()]
    } else {
        let p = split_on(s.drop_last(), c);
        if s.last() == c {
            p.push(Seq::empty())
        } else {
            p.update(p.len() - 1, p.last().push(s.last()))
        }
    }
}

proof fn lemma_split_nonempty(s: Seq<char>, c: char)
    ensures
        split_on(s, c).len() >= 1,
    decreases s.len(),
{
    if s.len() > 0 {
        lemma_split_nonempty(s.drop_last(), c);
    }
}

/// The pieces of `v` between occurrences of `c`.
pub fn split_chars(v: &[char], c: char) -> (r: Vec<Vec<char>>)
    ensures
        r@.map_values(|x: Vec<char>| x@) == split_on(v@, c),
{
    let mut done: Vec<Vec<char>> = Vec::new();
    let mut cur: Vec<char> = Vec::new();
    let mut i: usize = 0;
    while i < v.len()
        invariant
            i <= v@.len(),
            done@.map_values(|x: Vec<char>| x@).push(cur@) == split_on(v@.take(i as int), c),
        decreases v@.len() - i,
    {
        proof {
            assert(v@.take(i + 1).drop_last() =~= v@.take(i as int));
            assert(v@.take(i + 1).last() == v@[i as int]);
            lemma_split_nonempty(v@.take(i as int), c);
        }
        let ghost before = done@.map_values(|x: Vec<char>| x@);
        let ghost cur0 = cur@;
        if v[i] == c {
            let finished = cur;
            done.push(finished);
            cur = Vec::new();
            proof {
                assert(done@.map_values(|x: Vec<char>| x@) =~= before.push(cur0));
                assert(done@.map_values(|x: Vec<char>| x@).push(cur@) =~= split_on(v@.take(i + 1), c));
            }
        } else {
            cur.push(v[i]);
            proof {
                assert(done@.map_values(|x: Vec<char>| x@).push(cur@) =~= before.push(cur0).update(
                    before.len() as int,
                    cur0.push(v@[i as int]),
                ));
            }
        }
        i = i + 1;
    }
    assert(v@.take(v@.len() as int) =~= v@);
    let ghost before = done@.map_values(|x: Vec<char>| x@);
    let ghost cur0 = cur@;
    done.push(cur);
    assert(done@.map_values(|x: Vec<char>| x@) =~= before.push(cur0));
    done
}

// ---------------------------------------------------------------------
// The search path
// ---------------------------------------------------------------------
/// A file to look for while searching the path.
#[derive(Clone, Debug)]
pub struct PathProbe {
    /// The directory, as the search path lists it (trimmed).
    pub dir: String,
    pub file_name: String,
    /// An npm `.cmd` wrapper rather than a program.
    pub is_cmd: bool,
}

/// The pieces, trimmed, blank ones left out.
pub open spec fn nonblank_trimmed(ps: Seq<Seq<char>>) -> Seq<Seq<char>>
    decreases ps.len(),
{
    if ps.len() == 0 {
        seq![]
    } else {
        let p = nonblank_trimmed(ps.drop_last());
        let t = trim_seq(ps.last());
        if t.len() > 0 {
            p.push(t)
        } else {
            p
        }
    }
}

/// The directories of a `;`-separated search path, trimmed, blank ones left out.
pub open spec fn search_dirs(path: Seq<char>) -> Seq<Seq<char>> {
    nonblank_trimmed(split_on(path, ';'))
}

/// The files looked for in one directory, in order.
pub open spec fn probes_in(dir: Seq<char>, program: Seq<char>) -> Seq<(Seq<char>, Seq<char>, bool)> {
    seq![(dir, program + ".exe"@, false), (dir, program + ".com"@, false), (dir, program + ".cmd"@, true)]
}

/// The files looked for along the directories, in order.
pub open spec fn probes_along(dirs: Seq<Seq<char>>, program: Seq<char>) -> Seq<(Seq<char>, Seq<char>, bool)>
    decreases dirs.len(),
{
    if dirs.len() == 0 {
        seq![]
    } else {
        probes_along(dirs.drop_last(), program) + probes_in(dirs.last(), program)
    }
}

/// The view of a probe.
pub open spec fn probe_view(p: PathProbe) -> (Seq<char>, Seq<char>, bool) {
    (p.dir@, p.file_name@, p.is_cmd)
}

fn file_with_ext(program: &str, ext: &str) -> (r: String)
    ensures
        r@ == program@ + ext@,
{
    let mut v = chars_of(program);
    push_all(&mut v, chars_of(ext).as_slice());
    string_from_chars(v.as_slice())
}

/// The files to look for, in order, to find `program` along the search
/// path `merged_path`: in each directory `program.exe`, `program.com`,
/// then the npm wrapper `program.cmd`. The first `.exe` or `.com` that
/// exists is the program; a `.cmd` counts when its wrapper can be read
/// (see `parse_npm_cmd_file`).
pub fn resolve_in_path(merged_path: &str, program: &str) -> (r: Vec<PathProbe>)
    ensures
        r@.map_values(|p: PathProbe| probe_view(p)) == probes_along(search_dirs(merged_path@), program@),
{
    let parts = split_chars(chars_of(merged_path).as_slice(), ';');
    let ghost pv = parts@.map_values(|x: Vec<char>| x@);
    let mut r: Vec<PathProbe> = Vec::new();
    let ghost mut dirs: Seq<Seq<char>> = seq![];
    let mut i: usize = 0;
    while i < parts.len()
        invariant
            i <= parts@.len(),
            pv == parts@.map_values(|x: Vec<char>| x@),
            pv == split_on(merged_path@, ';'),
            dirs == nonblank_trimmed(pv.take(i as int)),
            r@.map_values(|p: PathProbe| probe_view(p)) == probes_along(dirs, program@),
        decreases parts@.len() - i,
    {
        let (a, b) = trim_bounds(parts[i].as_slice());
        let ghost t = trim_seq(pv[i as int]);
        proof {
            assert(pv.take(i + 1).drop_last() =~= pv.take(i as int));
            assert(pv.take(i + 1).last() == pv[i as int]);
            assert(parts@[i as int]@ == pv[i as int]);
        }
        if a < b {
            let dir = string_from_chars(crate::text::slice_range(parts[i].as_slice(), a, b).as_slice());
            let ghost before = r@.map_values(|p: PathProbe| probe_view(p));
            r.push(PathProbe { dir: dir.clone(), file_name: file_with_ext(program, ".exe"), is_cmd: false });
            r.push(PathProbe { dir: dir.clone(), file_name: file_with_ext(program, ".com"), is_cmd: false });
            r.push(PathProbe { dir, file_name: file_with_ext(program, ".cmd"), is_cmd: true });
            proof {
                assert(r@.map_values(|p: PathProbe| probe_view(p)) =~= before + probes_in(t, program@));
                assert(dirs.push(t).drop_last() =~= dirs);
                dirs = dirs.push(t);
            }
        }
        i = i + 1;
    }
    assert(pv.take(pv.len() as int) =~= pv);
    r
}

// ---------------------------------------------------------------------
// npm wrappers
// ---------------------------------------------------------------------
/// `str::replace`: each occurrence of `pat`, from the left and without
/// overlap, replaced by `rep` (for a non-empty `pat`).
pub open spec fn replace_all(s: Seq<char>, pat: Seq<char>, rep: Seq<char>) -> Seq<char>
    decreases s.len(),
{
    if pat.len() == 0 || s.len() == 0 {
        s
    } else if pat.is_prefix_of(s) {
        rep + replace_all(s.skip(pat.len() as int), pat, rep)
    } else {
        seq![s[0]] + replace_all(s.skip(1), pat, rep)
    }
}

fn replace_chars(v: &[char], pat: &[char], rep: &[char]) -> (r: Vec<char>)
    requires
        pat@.len() > 0,
    ensures
        r@ == replace_all(v@, pat@, rep@),
{
    let mut out: Vec<char> = Vec::new();
    let mut i: usize = 0;
    assert(v@.skip(0) =~= v@);
    while i < v.len()
        invariant
            i <= v@.len(),
            pat@.len() > 0,
            out@ + replace_all(v@.skip(i as int), pat@, rep@) == replace_all(v@, pat@, rep@),
        decreases v@.len() - i,
    {
        let ghost rest = v@.skip(i as int);
        if matches_at(v, pat, i) {
            proof {
                assert(pat@.is_prefix_of(rest)) by {
                    assert forall|k: int| 0 <= k < pat@.len() implies pat@[k] == rest[k] by {
                        assert(v@.subrange(i as int, i + pat@.len())[k] == v@[i + k]);
                    }
                }
                assert(rest.skip(pat@.len() as int) =~= v@.skip(i + pat@.len()));
            }
            push_all(&mut out, rep);
            proof {
                assert(out@ + replace_all(v@.skip(i + pat@.len()), pat@, rep@) =~= replace_all(
                    v@,
                    pat@,
                    rep@,
                ));
            }
            i = i + pat.len();
        } else {
            proof {
                if pat@.is_prefix_of(rest) {
                    assert(v@.subrange(i as int, i + pat@.len()) =~= pat@) by {
                        assert forall|k: int| 0 <= k < pat@.len() implies v@.subrange(
                            i as int,
                            i + pat@.len(),
                        )[k] == pat@[k] by {
                            assert(rest[k] == v@[i + k]);
                        }
                    }
                }
                assert(rest.skip(1) =~= v@.skip(i + 1));
                assert(rest[0] == v@[i as int]);
            }
            out.push(v[i]);
            proof {
                assert(out@ + replace_all(v@.skip(i + 1), pat@, rep@) =~= replace_all(v@, pat@, rep@));
            }
            i = i + 1;
        }
    }
    assert(v@.skip(v@.len() as int) =~= Seq::<char>::empty());
    assert(out@ + Seq::<char>::empty() =~= out@);
    out
}

/// A path of a wrapper with its `%dp0%` / `%~dp0` prefixes removed.
pub open spec fn without_dp0(p: Seq<char>) -> Seq<char> {
    let a = replace_all(p, "%dp0%\\"@, Seq::empty());
    let b = replace_all(a, "%~dp0\\"@, Seq::empty());
    let c = replace_all(b, "%dp0%/"@, Seq::empty());
    replace_all(c, "%~dp0/"@, Seq::empty())
}

fn strip_dp0(p: &[char]) -> (r: Vec<char>)
    ensures
        r@ == without_dp0(p@),
{
    let empty: Vec<char> = Vec::new();
    proof {
        reveal_strlit("%dp0%\\");
        reveal_strlit("%~dp0\\");
        reveal_strlit("%dp0%/");
        reveal_strlit("%~dp0/");
    }
    let a = replace_chars(p, chars_of("%dp0%\\").as_slice(), empty.as_slice());
    let b = replace_chars(a.as_slice(), chars_of("%~dp0\\").as_slice(), empty.as_slice());
    let c = replace_chars(b.as_slice(), chars_of("%dp0%/").as_slice(), empty.as_slice());
    let d = replace_chars(c.as_slice(), chars_of("%~dp0/").as_slice(), empty.as_slice());
    assert(empty@ =~= Seq::<char>::empty());
    d
}

/// A line without one trailing carriage return.
pub open spec fn strip_cr(l: Seq<char>) -> Seq<char> {
    if l.len() > 0 && l.last() == '\r' {
        l.drop_last()
    } else {
        l
    }
}

/// `str::lines`: the pieces between newlines, each without a carriage
/// return before its newline, and no last piece when the text ends with a
/// newline (or is empty).
pub open spec fn lines_of(s: Seq<char>) -> Seq<Seq<char>> {
    let ps = split_on(s, '\n');
    let body = ps.drop_last().map_values(|l: Seq<char>| strip_cr(l));
    if ps.last().len() == 0 {
        body
    } else {
        body.push(ps.last())
    }
}

/// The node program paths a piece list of one line offers.
pub open spec fn node_parts(ps: Seq<Seq<char>>) -> Seq<Seq<char>>
    decreases ps.len(),
{
    if ps.len() == 0 {
        seq![]
    } else {
        let prev = node_parts(ps.drop_last());
        let p = ps.last();
        if contains_seq(p, "node.exe"@) && !contains_seq(p, "node_modules"@) {
            prev.push(without_dp0(p))
        } else {
            prev
        }
    }
}

/// The script paths a piece list of one line offers.
pub open spec fn script_parts(ps: Seq<Seq<char>>) -> Seq<Seq<char>>
    decreases ps.len(),
{
    if ps.len() == 0 {
        seq![]
    } else {
        let prev = script_parts(ps.drop_last());
        let p = ps.last();
        if ".js"@.is_suffix_of(p) || ".mjs"@.is_suffix_of(p) {
            prev.push(without_dp0(p))
        } else {
            prev
        }
    }
}

/// The node program paths of a trimmed line: its quoted pieces naming
/// `node.exe` outside `node_modules`, when the line mentions `node.exe`.
pub open spec fn line_node(l: Seq<char>) -> Seq<Seq<char>> {
    if contains_seq(l, "node.exe"@) {
        node_parts(split_on(l, '"'))
    } else {
        seq![]
    }
}

/// The script paths of a trimmed line: its pieces ending in `.js` or
/// `.mjs`, when the line passes the arguments on (`%*`) and mentions a script.
pub open spec fn line_script(l: Seq<char>) -> Seq<Seq<char>> {
    if contains_seq(l, "%*"@) && (contains_seq(l, ".js"@) || contains_seq(l, ".mjs"@)) {
        script_parts(split_on(l, '"'))
    } else {
        seq![]
    }
}

/// The node program paths of all lines, in order.
pub open spec fn node_candidates(ls: Seq<Seq<char>>) -> Seq<Seq<char>>
    decreases ls.len(),
{
    if ls.len() == 0 {
        seq![]
    } else {
        node_candidates(ls.drop_last()) + line_node(trim_seq(ls.last()))
    }
}

/// The script paths of all lines, in order.
pub open spec fn script_candidates(ls: Seq<Seq<char>>) -> Seq<Seq<char>>
    decreases ls.len(),
{
    if ls.len() == 0 {
        seq![]
    } else {
        script_candidates(ls.drop_last()) + line_script(trim_seq(ls.last()))
    }
}

/// The paths, relative to the wrapper's folder, that an npm wrapper may
/// run: node programs and scripts, each in the order the wrapper gives
/// them. The first node program and the first script that exist are the
/// ones it runs; without both, the wrapper is not used.
#[derive(Clone, Debug)]
pub struct NpmCmdCandidates {
    pub node: Vec<String>,
    pub script: Vec<String>,
}

fn strs_of(v: &Vec<Vec<char>>) -> (r: Vec<String>)
    ensures
        r@.map_values(|x: String| x@) == v@.map_values(|x: Vec<char>| x@),
{
    let mut r: Vec<String> = Vec::new();
    let mut i: usize = 0;
    while i < v.len()
        invariant
            i <= v@.len(),
            r@.map_values(|x: String| x@) == v@.take(i as int).map_values(|x: Vec<char>| x@),
        decreases v@.len() - i,
    {
        let ghost before = r@;
        r.push(string_from_chars(v[i].as_slice()));
        assert(v@.take(i + 1).map_values(|x: Vec<char>| x@) =~= v@.take(i as int).map_values(|x: Vec<char>| x@).push(
            v@[i as int]@,
        ));
        assert(r@.map_values(|x: String| x@) =~= before.map_values(|x: String| x@).push(v@[i as int]@));
        i = i + 1;
    }
    assert(v@.take(v@.len() as int) =~= v@);
    r
}

fn collect_parts(line: &[char], node: &mut Vec<Vec<char>>, script: &mut Vec<Vec<char>>)
    ensures
        final(node)@.map_values(|x: Vec<char>| x@) == old(node)@.map_values(|x: Vec<char>| x@) + line_node(line@),
        final(script)@.map_values(|x: Vec<char>| x@) == old(script)@.map_values(|x: Vec<char>| x@) + line_script(
            line@,
        ),
{
    proof {
        reveal_strlit("node.exe");
        reveal_strlit("node_modules");
        reveal_strlit("%*");
        reveal_strlit(".js");
        reveal_strlit(".mjs");
    }
    let node_exe = chars_of("node.exe");
    let node_modules = chars_of("node_modules");
    let js = chars_of(".js");
    let mjs = chars_of(".mjs");
    let wants_node = contains_chars(line, node_exe.as_slice());
    let wants_script = contains_chars(line, chars_of("%*").as_slice()) && (contains_chars(line, js.as_slice())
        || contains_chars(line, mjs.as_slice()));
    let parts = split_chars(line, '"');
    let ghost pv = parts@.map_values(|x: Vec<char>| x@);
    let ghost n0 = node@.map_values(|x: Vec<char>| x@);
    let ghost s0 = script@.map_values(|x: Vec<char>| x@);
    let mut i: usize = 0;
    while i < parts.len()
        invariant
            i <= parts@.len(),
            pv == parts@.map_values(|x: Vec<char>| x@),
            pv == split_on(line@, '"'),
            node_exe@ == "node.exe"@,
            node_modules@ == "node_modules"@,
            js@ == ".js"@,
            mjs@ == ".mjs"@,
            node@.map_values(|x: Vec<char>| x@) == n0 + (if wants_node {
                node_parts(pv.take(i as int))
            } else {
                seq![]
            }),
            script@.map_values(|x: Vec<char>| x@) == s0 + (if wants_script {
                script_parts(pv.take(i as int))
            } else {
                seq![]
            }),
        decreases parts@.len() - i,
    {
        proof {
            assert(pv.take(i + 1).drop_last() =~= pv.take(i as int));
            assert(pv.take(i + 1).last() == parts@[i as int]@);
        }
        let p = parts[i].as_slice();
        if wants_node && contains_chars(p, node_exe.as_slice()) && !contains_chars(p, node_modules.as_slice()) {
            let ghost before = node@.map_values(|x: Vec<char>| x@);
            node.push(strip_dp0(p));
            assert(node@.map_values(|x: Vec<char>| x@) =~= before.push(without_dp0(p@)));
        }
        if wants_script && (ends_with(p, js.as_slice()) || ends_with(p, mjs.as_slice())) {
            let ghost before = script@.map_values(|x: Vec<char>| x@);
            script.push(strip_dp0(p));
            assert(script@.map_values(|x: Vec<char>| x@) =~= before.push(without_dp0(p@)));
        }
        i = i + 1;
    }
    assert(pv.take(pv.len() as int) =~= pv);
    assert(node@.map_values(|x: Vec<char>| x@) =~= n0 + line_node(line@));
    assert(script@.map_values(|x: Vec<char>| x@) =~= s0 + line_script(line@));
}

/// The node programs and scripts an npm `.cmd` wrapper with this content may run.
pub fn parse_npm_cmd_file(content: &str) -> (r: NpmCmdCandidates)
    ensures
        r.node@.map_values(|x: String| x@) == node_candidates(lines_of(content@)),
        r.script@.map_values(|x: String| x@) == script_candidates(lines_of(content@)),
{
    let pieces = split_chars(chars_of(content).as_slice(), '\n');
    let ghost ps = pieces@.map_values(|x: Vec<char>| x@);
    proof {
        lemma_split_nonempty(content@, '\n');
    }
    let n = pieces.len();
    let mut node: Vec<Vec<char>> = Vec::new();
    let mut script: Vec<Vec<char>> = Vec::new();
    let ghost mut ls: Seq<Seq<char>> = seq![];
    let mut i: usize = 0;
    while i < n
        invariant
            n == pieces@.len(),
            n >= 1,
            i <= n,
            ps == pieces@.map_values(|x: Vec<char>| x@),
            ps == split_on(content@, '\n'),
            ls == (if i < n {
                ps.take(i as int).map_values(|l: Seq<char>| strip_cr(l))
            } else {
                lines_of(content@)
            }),
            node@.map_values(|x: Vec<char>| x@) == node_candidates(ls),
            script@.map_values(|x: Vec<char>| x@) == script_candidates(ls),
        decreases n - i,
    {
        let piece = pieces[i].as_slice();
        let last = i + 1 == n;
        if last && piece.len() == 0 {
            proof {
                assert(ps.drop_last() =~= ps.take(i as int));
                ls = lines_of(content@);
            }
        } else {
            let keep = if !last && piece.len() > 0 && piece[piece.len() - 1] == '\r' {
                piece.len() - 1
            } else {
                piece.len()
            };
            let line = crate::text::slice_range(piece, 0, keep);
            let ghost l = if last {
                ps[i as int]
            } else {
                strip_cr(ps[i as int])
            };
            assert(line@ =~= l);
            let (a, b) = trim_bounds(line.as_slice());
            let t = crate::text::slice_range(line.as_slice(), a, b);
            collect_parts(t.as_slice(), &mut node, &mut script);
            proof {
                let nl = ls.push(l);
                assert(nl.drop_last() =~= ls);
                if last {
                    assert(ps.drop_last() =~= ps.take(i as int));
                    assert(nl =~= lines_of(content@));
                } else {
                    assert(nl =~= ps.take(i + 1).map_values(|l: Seq<char>| strip_cr(l)));
                }
                ls = nl;
            }
        }
        i = i + 1;
    }
    NpmCmdCandidates { node: strs_of(&node), script: strs_of(&script) }
}

/// `i` is the first position where `f` holds.
pub open spec fn first_at(f: Seq<bool>, i: int) -> bool {
    0 <= i < f.len() && f[i] && forall|k: int| 0 <= k < i ==> !f[k]
}

/// The first position where `flags` holds, if any.
fn first_set(flags: &Vec<bool>) -> (r: Option<usize>)
    ensures
        match r {
            Some(i) => first_at(flags@, i as int),
            None => forall|k: int| 0 <= k < flags@.len() ==> !flags@[k],
        },
{
    let mut i: usize = 0;
    while i < flags.len()
        invariant
            i <= flags@.len(),
            forall|k: int| 0 <= k < i ==> !flags@[k],
        decreases flags@.len() - i,
    {
        if flags[i] {
            return Some(i);
        }
        i = i + 1;
    }
    None
}

/// What an npm wrapper runs, given which of its candidates exist (in the
/// wrapper's folder): the first node program and the first script that
/// exist; nothing unless both do.
pub fn choose_npm_program(c: &NpmCmdCandidates, node_exists: &Vec<bool>, script_exists: &Vec<bool>) -> (r: Option<
    (String, String),
>)
    requires
        node_exists@.len() == c.node@.len(),
        script_exists@.len() == c.script@.len(),
    ensures
        match r {
            Some((n, sc)) => exists|i: int, j: int|
                first_at(node_exists@, i) && first_at(script_exists@, j) && n@ == c.node@[i]@ && sc@
                    == c.script@[j]@,
            None => (forall|k: int| 0 <= k < node_exists@.len() ==> !node_exists@[k]) || (forall|k: int|
                0 <= k < script_exists@.len() ==> !script_exists@[k]),
        },
{
    match (first_set(node_exists), first_set(script_exists)) {
        (Some(i), Some(j)) => {
            let n = c.node[i].clone();
            let sc = c.script[j].clone();
            assert(first_at(node_exists@, i as int) && first_at(script_exists@, j as int));
            Some((n, sc))
        },
        _ => None,
    }
}

/// How a program name resolved along the search path.
#[derive(Clone, Debug)]
pub enum ResolvedProgram {
    /// A program file, in `dir`.
    Exe { dir: String, file_name: String },
    /// An npm wrapper, run as this node program with this script.
    CmdScript { node_exe: String, script: String },
    /// Nothing found.
    NotFound,
}

/// Probe `i` settles the search: its file exists, and it is a program or
/// a wrapper that could be read.
pub open spec fn probe_hits(probes: Seq<PathProbe>, exists: Seq<bool>, wrappers: Seq<Option<(String, String)>>) -> Seq<
    bool,
> {
    Seq::new(probes.len(), |i: int| exists[i] && (!probes[i].is_cmd || wrappers[i] is Some))
}

/// The program the search finds, given which probed files exist and, for
/// each wrapper, what it runs (see `choose_npm_program`): the first probe
/// that is an existing program or a readable wrapper; nothing otherwise.
pub fn choose_resolved_program(
    probes: &Vec<PathProbe>,
    exists: &Vec<bool>,
    wrappers: &Vec<Option<(String, String)>>,
) -> (r: ResolvedProgram)
    requires
        exists@.len() == probes@.len(),
        wrappers@.len() == probes@.len(),
    ensures
        match r {
            ResolvedProgram::Exe { dir, file_name } => exists|i: int|
                first_at(probe_hits(probes@, exists@, wrappers@), i) && !probes@[i].is_cmd && dir@
                    == probes@[i].dir@ && file_name@ == probes@[i].file_name@,
            ResolvedProgram::CmdScript { node_exe, script } => exists|i: int|
                first_at(probe_hits(probes@, exists@, wrappers@), i) && probes@[i].is_cmd && (wrappers@[i]
                    matches Some((n, sc)) && node_exe@ == n@ && script@ == sc@),
            ResolvedProgram::NotFound => forall|k: int|
                0 <= k < probes@.len() ==> !probe_hits(probes@, exists@, wrappers@)[k],
        },
{
    let ghost h = probe_hits(probes@, exists@, wrappers@);
    let mut i: usize = 0;
    while i < probes.len()
        invariant
            i <= probes@.len(),
            exists@.len() == probes@.len(),
            wrappers@.len() == probes@.len(),
            h == probe_hits(probes@, exists@, wrappers@),
            forall|k: int| 0 <= k < i ==> !h[k],
        decreases probes@.len() - i,
    {
        if exists[i] {
            if !probes[i].is_cmd {
                assert(first_at(h, i as int));
                return ResolvedProgram::Exe { dir: probes[i].dir.clone(), file_name: probes[i].file_name.clone() };
            }
            match &wrappers[i] {
                Some((n, sc)) => {
                    assert(first_at(h, i as int));
                    return ResolvedProgram::CmdScript { node_exe: n.clone(), script: sc.clone() };
                },
                None => {},
            }
        }
        i = i + 1;
    }
    ResolvedProgram::NotFound
}

} // verus!
