//! The environment of an adapter build, as it enters the cache fingerprint
//! and the build command: the variables that reach builds, by name, each
//! with its last value, and the loader search paths without the launcher's
//! own build directories and the toolchain's libraries.
use vstd::prelude::*;
use crate::folder::{lemma_lex_le_order, lex_le, lex_le_exec};
use crate::model::{
    file_name_of, join_path, opt_view, parent_path, path_file_name, path_has_base, path_join,
    path_parent, path_starts_with,
};
use crate::rebuild::{environment_kept, law_volatile_never_kept, spec_environment_kept, spec_volatile_environment};
use crate::text::{chars_of, join, join_chars, str_eq, string_of, views};

verus! {

/// `s` split at every `sep`; the empty text is one empty part.
pub open spec fn split_on(s: Seq<char>, sep: char) -> Seq<Seq<char>>
    decreases s.len(),
{
    if s.len() == 0 {
        seq![Seq::<char>::empty()]
    } else {
        let rest = split_on(s.drop_last(), sep);
        if s.last() == sep {
            rest.push(Seq::<char>::empty())
        } else {
            rest.update(rest.len() - 1, rest.last().push(s.last()))
        }
    }
}

proof fn lemma_split_nonempty(s: Seq<char>, sep: char)
    ensures
        split_on(s, sep).len() > 0,
    decreases s.len(),
{
    if s.len() > 0 {
        lemma_split_nonempty(s.drop_last(), sep);
    }
}

/// `s` split at every `sep`.
fn split_chars(s: &[char], sep: char) -> (r: Vec<Vec<char>>)
    ensures
        views(r@) == split_on(s@, sep),
{
    let mut parts: Vec<Vec<char>> = Vec::new();
    parts.push(Vec::new());
    let mut i: usize = 0;
    proof {
        assert(s@.take(0) =~= Seq::<char>::empty());
        assert(views(parts@) =~= split_on(s@.take(0), sep));
    }
    while i < s.len()
        invariant
            i <= s@.len(),
            views(parts@) == split_on(s@.take(i as int), sep),
            parts@.len() > 0,
        decreases s.len() - i,
    {
        let ghost before = views(parts@);
        proof {
            assert(s@.take(i as int + 1).drop_last() =~= s@.take(i as int));
        }
        if s[i] == sep {
            parts.push(Vec::new());
            proof {
                assert(views(parts@) =~= before.push(Seq::<char>::empty()));
            }
        } else {
            let last = parts.len() - 1;
            let mut part: Vec<char> = Vec::new();
            parts.set_and_swap(last, &mut part);
            let ghost old_part = part@;
            part.push(s[i]);
            parts.set(last, part);
            proof {
                assert(old_part == before[last as int]);
                assert(views(parts@) =~= before.update(last as int, before.last().push(s@[i as int])));
            }
        }
        i += 1;
    }
    proof {
        assert(s@.take(s@.len() as int) =~= s@);
    }
    parts
}

/// The variables whose values are loader search paths.
pub open spec fn is_loader_variable(name: Seq<char>) -> bool {
    name == "LD_LIBRARY_PATH"@ || name == "DYLD_FALLBACK_LIBRARY_PATH"@
}

/// Whether a search path is the toolchain's own library directory, a
/// `lib` directory two levels under a `rustlib` directory.
pub open spec fn is_rustlib_path(p: Seq<char>) -> bool {
    &&& path_file_name(p) == Some("lib"@)
    &&& match path_parent(p) {
        Some(q) => match path_parent(q) {
            Some(r) => path_file_name(r) == Some("rustlib"@),
            None => false,
        },
        None => false,
    }
}

/// Whether a loader search path stays: not empty, not in the workspace's
/// `target` directory or its Cargo target directory, and not the
/// toolchain's library directory.
pub open spec fn loader_path_kept(workspace: Seq<char>, target_dir: Option<Seq<char>>, p: Seq<char>) -> bool {
    &&& p.len() > 0
    &&& !path_starts_with(p, path_join(workspace, "target"@))
    &&& !is_rustlib_path(p)
    &&& !(target_dir matches Some(t) && path_starts_with(p, path_join(workspace, t)))
}

/// The search paths that stay, in order.
pub open spec fn kept_loader_paths(
    workspace: Seq<char>,
    target_dir: Option<Seq<char>>,
    parts: Seq<Seq<char>>,
) -> Seq<Seq<char>>
    decreases parts.len(),
{
    if parts.len() == 0 {
        seq![]
    } else {
        let rest = kept_loader_paths(workspace, target_dir, parts.drop_last());
        if loader_path_kept(workspace, target_dir, parts.last()) {
            rest.push(parts.last())
        } else {
            rest
        }
    }
}

/// The value a kept variable has in the build: loader search paths without
/// the paths that go (none where no path stays), other values as they are.
pub open spec fn cleaned_value(
    workspace: Seq<char>,
    target_dir: Option<Seq<char>>,
    name: Seq<char>,
    value: Seq<char>,
) -> Option<Seq<char>> {
    if is_loader_variable(name) {
        let kept = kept_loader_paths(workspace, target_dir, split_on(value, ':'));
        if kept.len() == 0 {
            None
        } else {
            Some(join(kept, seq![':']))
        }
    } else {
        Some(value)
    }
}

/// The last value given to a variable.
pub open spec fn last_value(vars: Seq<(Seq<char>, Seq<char>)>, name: Seq<char>) -> Option<Seq<char>>
    decreases vars.len(),
{
    if vars.len() == 0 {
        None
    } else if vars.last().0 == name {
        Some(vars.last().1)
    } else {
        last_value(vars.drop_last(), name)
    }
}

/// The value a variable has in the build environment, if it is there.
#[verifier::opaque]
pub open spec fn build_value(workspace: Seq<char>, vars: Seq<(Seq<char>, Seq<char>)>, name: Seq<char>) -> Option<
    Seq<char>,
> {
    match last_value(vars, name) {
        Some(v) => if spec_environment_kept(name) {
            cleaned_value(workspace, last_value(vars, "CARGO_TARGET_DIR"@), name, v)
        } else {
            None
        },
        None => None,
    }
}

/// Lexicographic `<` of names.
pub open spec fn name_lt(a: Seq<char>, b: Seq<char>) -> bool {
    lex_le(a, b) && a != b
}

/// Whether `env` is the build environment: ordered by name, each variable
/// once, with its build value, and every variable that has a build value.
pub open spec fn is_build_environment(
    workspace: Seq<char>,
    vars: Seq<(Seq<char>, Seq<char>)>,
    env: Seq<(Seq<char>, Seq<char>)>,
) -> bool {
    &&& forall|i: int, j: int| 0 <= i < j < env.len() ==> name_lt(#[trigger] env[i].0, #[trigger] env[j].0)
    &&& forall|i: int| 0 <= i < env.len() ==> build_value(workspace, vars, #[trigger] env[i].0) == Some(env[i].1)
    &&& forall|name: Seq<char>|
        #[trigger] build_value(workspace, vars, name) is Some ==> exists|i: int| 0 <= i < env.len() && env[i].0 == name
}

/// Pairs of strings as pairs of character sequences.
pub open spec fn pair_views(v: Seq<(String, String)>) -> Seq<(Seq<char>, Seq<char>)> {
    v.map_values(|p: (String, String)| (p.0@, p.1@))
}

fn text_is(a: &Option<String>, b: &str) -> (r: bool)
    ensures
        r == (opt_view(*a) == Some(b@)),
{
    match a {
        Some(x) => str_eq(x.as_str(), b),
        None => false,
    }
}

fn is_rustlib(p: &str) -> (r: bool)
    ensures
        r == is_rustlib_path(p@),
{
    if !text_is(&file_name_of(p), "lib") {
        return false;
    }
    match parent_path(p) {
        Some(q) => match parent_path(q.as_str()) {
            Some(r) => text_is(&file_name_of(r.as_str()), "rustlib"),
            None => false,
        },
        None => false,
    }
}

fn keeps_loader_path(workspace: &str, target_dir: &Option<String>, p: &str) -> (r: bool)
    ensures
        r == loader_path_kept(workspace@, opt_view(*target_dir), p@),
{
    if p.unicode_len() == 0 {
        return false;
    }
    let target = join_path(workspace, "target");
    if path_has_base(p, target.as_str()) {
        return false;
    }
    if is_rustlib(p) {
        return false;
    }
    match target_dir {
        Some(t) => {
            let own = join_path(workspace, t.as_str());
            !path_has_base(p, own.as_str())
        },
        None => true,
    }
}

/// The value a kept variable has in the build.
pub fn clean_value(workspace: &str, target_dir: &Option<String>, name: &str, value: &str) -> (r: Option<String>)
    ensures
        opt_view(r) == cleaned_value(workspace@, opt_view(*target_dir), name@, value@),
{
    if !(str_eq(name, "LD_LIBRARY_PATH") || str_eq(name, "DYLD_FALLBACK_LIBRARY_PATH")) {
        return Some(value.to_owned());
    }
    let chars = chars_of(value);
    let parts = split_chars(&chars, ':');
    let ghost pv = views(parts@);
    let mut kept: Vec<Vec<char>> = Vec::new();
    let mut i: usize = 0;
    while i < parts.len()
        invariant
            i <= parts@.len(),
            pv == views(parts@),
            views(kept@) == kept_loader_paths(workspace@, opt_view(*target_dir), pv.take(i as int)),
        decreases parts.len() - i,
    {
        proof {
            assert(pv.take(i as int + 1).drop_last() =~= pv.take(i as int));
        }
        let text = string_of(&parts[i]);
        if keeps_loader_path(workspace, target_dir, text.as_str()) {
            kept.push(chars_of(text.as_str()));
            proof {
                assert(views(kept@) =~= kept_loader_paths(workspace@, opt_view(*target_dir), pv.take(i as int)).push(pv[i as int]));
            }
        }
        i += 1;
    }
    proof {
        assert(pv.take(pv.len() as int) =~= pv);
    }
    if kept.len() == 0 {
        return None;
    }
    let sep = [':'];
    let joined = join_chars(&kept, &sep);
    proof {
        assert(sep@ =~= seq![':']);
    }
    Some(string_of(&joined))
}

fn name_before(a: &str, b: &str) -> (r: bool)
    ensures
        r == name_lt(a@, b@),
{
    let x = chars_of(a);
    let y = chars_of(b);
    lex_le_exec(&x, &y) && !str_eq(a, b)
}

proof fn lemma_name_order(a: Seq<char>, b: Seq<char>, c: Seq<char>)
    ensures
        a != b ==> name_lt(a, b) || name_lt(b, a),
        name_lt(a, b) && name_lt(b, c) ==> name_lt(a, c),
        !(name_lt(a, b) && name_lt(b, a)),
{
    lemma_lex_le_order(a, b, c);
    lemma_lex_le_order(b, a, c);
    lemma_lex_le_order(a, c, b);
}

/// Whether pairs are ordered strictly by name.
pub open spec fn names_ascending(env: Seq<(Seq<char>, Seq<char>)>) -> bool {
    forall|i: int, j: int| 0 <= i < j < env.len() ==> name_lt(#[trigger] env[i].0, #[trigger] env[j].0)
}

/// Whether `r` holds each variable of `vars` once, ordered by name, with its
/// last value.
pub open spec fn latest_of(vars: Seq<(Seq<char>, Seq<char>)>, r: Seq<(Seq<char>, Seq<char>)>) -> bool {
    &&& names_ascending(r)
    &&& forall|i: int| 0 <= i < r.len() ==> last_value(vars, #[trigger] r[i].0) == Some(r[i].1)
    &&& forall|name: Seq<char>|
        #[trigger] last_value(vars, name) is Some ==> exists|i: int| 0 <= i < r.len() && r[i].0 == name
}

/// Each variable once, ordered by name, with its last value.
fn latest_values(vars: &Vec<(String, String)>) -> (r: Vec<(String, String)>)
    ensures
        latest_of(pair_views(vars@), pair_views(r@)),
{
    let ghost vv = pair_views(vars@);
    let mut r: Vec<(String, String)> = Vec::new();
    let mut i: usize = 0;
    proof {
        assert(vv.take(0) =~= Seq::<(Seq<char>, Seq<char>)>::empty());
    }
    while i < vars.len()
        invariant
            i <= vars@.len(),
            vv == pair_views(vars@),
            latest_of(vv.take(i as int), pair_views(r@)),
        decreases vars.len() - i,
    {
        let name = &vars[i].0;
        let value = &vars[i].1;
        let ghost before = pair_views(r@);
        let ghost prev = vv.take(i as int);
        let ghost next = vv.take(i as int + 1);
        proof {
            assert(next.drop_last() =~= prev);
            assert(next.last() == (name@, value@));
        }
        let mut pos: usize = 0;
        while pos < r.len() && name_before(r[pos].0.as_str(), name.as_str())
            invariant
                pos <= r@.len(),
                before == pair_views(r@),
                forall|k: int| 0 <= k < pos ==> name_lt(#[trigger] before[k].0, name@),
            decreases r.len() - pos,
        {
            pos += 1;
        }
        if pos < r.len() && str_eq(r[pos].0.as_str(), name.as_str()) {
            r.set(pos, (name.clone(), value.clone()));
            proof {
                let after = pair_views(r@);
                assert(after =~= before.update(pos as int, (name@, value@)));
                assert forall|k: int| 0 <= k < after.len() implies last_value(next, #[trigger] after[k].0) == Some(after[k].1) by {
                    if k != pos {
                        assert(after[k] == before[k]);
                        assert(before[k].0 != name@) by {
                            lemma_names_distinct(before, k, pos as int);
                        }
                    }
                }
                assert forall|n: Seq<char>| #[trigger] last_value(next, n) is Some implies exists|k: int|
                    0 <= k < after.len() && after[k].0 == n by {
                    if n != name@ {
                        assert(last_value(prev, n) is Some);
                        let k = choose|k: int| 0 <= k < before.len() && before[k].0 == n;
                        assert(after[k].0 == n);
                    } else {
                        assert(after[pos as int].0 == n);
                    }
                }
            }
        } else {
            r.insert(pos, (name.clone(), value.clone()));
            proof {
                let after = pair_views(r@);
                assert(after =~= before.insert(pos as int, (name@, value@)));
                if pos < before.len() {
                    assert(!name_lt(before[pos as int].0, name@));
                    assert(before[pos as int].0 != name@);
                    lemma_name_order(name@, before[pos as int].0, name@);
                }
                assert forall|a: int, b: int| 0 <= a < b < after.len() implies name_lt(
                    #[trigger] after[a].0,
                    #[trigger] after[b].0,
                ) by {
                    if b < pos {
                        assert(after[a] == before[a] && after[b] == before[b]);
                    } else if b == pos {
                        assert(after[a] == before[a]);
                    } else if a == pos {
                        assert(after[b] == before[b - 1]);
                        if b - 1 > pos {
                            lemma_name_order(name@, before[pos as int].0, before[b - 1].0);
                        }
                    } else if a < pos {
                        assert(after[a] == before[a] && after[b] == before[b - 1]);
                    } else {
                        assert(after[a] == before[a - 1] && after[b] == before[b - 1]);
                    }
                }
                assert forall|k: int| 0 <= k < after.len() implies last_value(next, #[trigger] after[k].0) == Some(after[k].1) by {
                    if k < pos {
                        assert(after[k] == before[k]);
                        assert(before[k].0 != name@);
                    } else if k > pos {
                        assert(after[k] == before[k - 1]);
                        if before[k - 1].0 == name@ {
                            lemma_name_order(name@, before[pos as int].0, name@);
                            if k - 1 > pos {
                                assert(name_lt(before[pos as int].0, before[k - 1].0));
                            }
                        }
                    }
                }
                assert forall|n: Seq<char>| #[trigger] last_value(next, n) is Some implies exists|k: int|
                    0 <= k < after.len() && after[k].0 == n by {
                    if n != name@ {
                        assert(last_value(prev, n) is Some);
                        let k = choose|k: int| 0 <= k < before.len() && before[k].0 == n;
                        if k < pos {
                            assert(after[k].0 == n);
                        } else {
                            assert(after[k + 1].0 == n);
                        }
                    } else {
                        assert(after[pos as int].0 == n);
                    }
                }
            }
        }
        i += 1;
    }
    proof {
        assert(vv.take(vv.len() as int) =~= vv);
    }
    r
}

proof fn lemma_names_distinct(s: Seq<(Seq<char>, Seq<char>)>, a: int, b: int)
    requires
        names_ascending(s),
        0 <= a < s.len(),
        0 <= b < s.len(),
        a != b,
    ensures
        s[a].0 != s[b].0,
{
    if a < b {
        assert(name_lt(s[a].0, s[b].0));
    } else {
        assert(name_lt(s[b].0, s[a].0));
    }
}

/// The last value of a variable among the latest values.
fn value_named(latest: &Vec<(String, String)>, name: &str) -> (r: Option<String>)
    requires
        names_ascending(pair_views(latest@)),
    ensures
        match r {
            Some(v) => exists|i: int| 0 <= i < latest@.len() && pair_views(latest@)[i] == (name@, v@),
            None => forall|i: int| 0 <= i < latest@.len() ==> (#[trigger] pair_views(latest@)[i]).0 != name@,
        },
{
    let mut i: usize = 0;
    while i < latest.len()
        invariant
            i <= latest@.len(),
            forall|k: int| 0 <= k < i ==> (#[trigger] pair_views(latest@)[k]).0 != name@,
        decreases latest.len() - i,
    {
        if str_eq(latest[i].0.as_str(), name) {
            let v = latest[i].1.clone();
            assert(pair_views(latest@)[i as int] == (name@, v@));
            return Some(v);
        }
        i += 1;
    }
    None
}


/// The value a variable with this last value has in the build, if any.
fn entry_value(workspace: &str, target_dir: &Option<String>, name: &str, value: &str) -> (r: Option<String>)
    ensures
        opt_view(r) == if spec_environment_kept(name@) {
            cleaned_value(workspace@, opt_view(*target_dir), name@, value@)
        } else {
            None
        },
{
    if environment_kept(name) {
        clean_value(workspace, target_dir, name, value)
    } else {
        None
    }
}

proof fn lemma_build_value(
    workspace: Seq<char>,
    vars: Seq<(Seq<char>, Seq<char>)>,
    name: Seq<char>,
    value: Seq<char>,
)
    requires
        last_value(vars, name) == Some(value),
    ensures
        build_value(workspace, vars, name) == if spec_environment_kept(name) {
            cleaned_value(workspace, last_value(vars, "CARGO_TARGET_DIR"@), name, value)
        } else {
            None
        },
{
    reveal(build_value);
}

proof fn lemma_build_value_has_last(workspace: Seq<char>, vars: Seq<(Seq<char>, Seq<char>)>, name: Seq<char>)
    requires
        build_value(workspace, vars, name) is Some,
    ensures
        last_value(vars, name) is Some,
{
    reveal(build_value);
}

/// The environment of an adapter build: the variables that reach builds,
/// ordered by name, each with its last value; loader search paths without
/// the workspace's build directories and the toolchain's libraries, and left
/// out where no path stays.
pub fn build_environment(workspace: &str, vars: &Vec<(String, String)>) -> (env: Vec<(String, String)>)
    ensures
        is_build_environment(workspace@, pair_views(vars@), pair_views(env@)),
{
    let ghost vv = pair_views(vars@);
    let latest = latest_values(vars);
    let ghost lv = pair_views(latest@);
    let target_dir = value_named(&latest, "CARGO_TARGET_DIR");
    proof {
        if target_dir is Some {
            let t = target_dir->0;
            let i = choose|i: int| 0 <= i < latest@.len() && lv[i] == ("CARGO_TARGET_DIR"@, t@);
            assert(last_value(vv, lv[i].0) == Some(lv[i].1));
        } else {
            if last_value(vv, "CARGO_TARGET_DIR"@) is Some {
                let i = choose|i: int| 0 <= i < lv.len() && lv[i].0 == "CARGO_TARGET_DIR"@;
                assert(lv[i].0 != "CARGO_TARGET_DIR"@);
            }
        }
        assert(opt_view(target_dir) == last_value(vv, "CARGO_TARGET_DIR"@));
    }
    let mut env: Vec<(String, String)> = Vec::new();
    let ghost mut origin: Seq<int> = seq![];
    let mut j: usize = 0;
    while j < latest.len()
        invariant
            j <= latest@.len(),
            lv == pair_views(latest@),
            latest_of(vv, lv),
            opt_view(target_dir) == last_value(vv, "CARGO_TARGET_DIR"@),
            origin.len() == env@.len(),
            forall|i: int| 0 <= i < origin.len() ==> 0 <= #[trigger] origin[i] < j && pair_views(env@)[i].0 == lv[origin[i]].0,
            forall|a: int, b: int| 0 <= a < b < origin.len() ==> #[trigger] origin[a] < #[trigger] origin[b],
            forall|i: int|
                0 <= i < env@.len() ==> build_value(workspace@, vv, (#[trigger] pair_views(env@)[i]).0) == Some(
                    pair_views(env@)[i].1,
                ),
            forall|k: int|
                0 <= k < j && build_value(workspace@, vv, (#[trigger] lv[k]).0) is Some ==> exists|i: int|
                    0 <= i < origin.len() && origin[i] == k,
        decreases latest.len() - j,
    {
        let name = &latest[j].0;
        let value = &latest[j].1;
        proof {
            assert(lv[j as int] == (name@, value@));
            assert(last_value(vv, lv[j as int].0) == Some(lv[j as int].1));
            lemma_build_value(workspace@, vv, name@, value@);
        }
        match entry_value(workspace, &target_dir, name.as_str(), value.as_str()) {
            Some(cleaned) => {
                let ghost before = pair_views(env@);
                env.push((name.clone(), cleaned));
                proof {
                    let after = pair_views(env@);
                    assert(after =~= before.push((name@, after.last().1)));
                    let o0 = origin;
                    origin = origin.push(j as int);
                    assert forall|i: int| 0 <= i < after.len() implies build_value(
                        workspace@,
                        vv,
                        (#[trigger] after[i]).0,
                    ) == Some(after[i].1) by {
                        if i < before.len() {
                            assert(after[i] == before[i]);
                        }
                    }
                    assert forall|i: int| 0 <= i < origin.len() implies 0 <= #[trigger] origin[i] < j + 1
                        && after[i].0 == lv[origin[i]].0 by {
                        if i < o0.len() {
                            assert(after[i] == before[i]);
                            assert(origin[i] == o0[i]);
                        }
                    }
                    assert forall|k: int|
                        0 <= k < j + 1 && build_value(workspace@, vv, (#[trigger] lv[k]).0) is Some implies exists|i: int|
                            0 <= i < origin.len() && origin[i] == k by {
                        if k < j {
                            let i = choose|i: int| 0 <= i < o0.len() && o0[i] == k;
                            assert(origin[i] == k);
                        } else {
                            assert(origin[o0.len() as int] == k);
                        }
                    }
                }
            },
            None => {},
        }
        j += 1;
    }
    proof {
        let ev = pair_views(env@);
        assert forall|a: int, b: int| 0 <= a < b < ev.len() implies name_lt(#[trigger] ev[a].0, #[trigger] ev[b].0) by {
            assert(origin[a] < origin[b]);
            assert(name_lt(lv[origin[a]].0, lv[origin[b]].0));
        }
        assert forall|n: Seq<char>| #[trigger] build_value(workspace@, vv, n) is Some implies exists|i: int|
            0 <= i < ev.len() && ev[i].0 == n by {
            lemma_build_value_has_last(workspace@, vv, n);
            let k = choose|k: int| 0 <= k < lv.len() && lv[k].0 == n;
            assert(build_value(workspace@, vv, lv[k].0) is Some);
            let i = choose|i: int| 0 <= i < origin.len() && origin[i] == k;
            assert(ev[i].0 == n);
        }
    }
    env
}

/// A volatile variable that the launcher sets (other than the Cargo target
/// directory, which decides which loader paths go) changes no value of the
/// build environment.
pub proof fn law_volatile_variables_change_nothing(
    workspace: Seq<char>,
    vars: Seq<(Seq<char>, Seq<char>)>,
    name: Seq<char>,
    value: Seq<char>,
    other: Seq<char>,
)
    requires
        spec_volatile_environment(name),
        name != "CARGO_TARGET_DIR"@,
    ensures
        build_value(workspace, vars.push((name, value)), other) == build_value(workspace, vars, other),
{
    reveal(build_value);
    law_volatile_never_kept(name);
    let pushed = vars.push((name, value));
    assert(pushed.drop_last() =~= vars);
    assert(last_value(pushed, "CARGO_TARGET_DIR"@) == last_value(vars, "CARGO_TARGET_DIR"@));
}

} // verus!
