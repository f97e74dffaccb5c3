//! A plain model of file system paths: a path is a string of components
//! separated by `/`. Splitting, joining, parents and the component scans
//! the pipeline needs are all defined here.

use vstd::prelude::*;
use crate::text::views_of;

verus! {

/// The components of a path string, split on `/`. An empty string has
/// one empty component, and a leading `/` yields a leading empty
/// component, so joining the components back restores the string.
pub open spec fn split_slash(s: Seq<char>) -> Seq<Seq<char>>
    decreases s.len(),
{
    if s.len() == 0 {
        seq![s]
    } else if s[0] == '/' {
        seq![Seq::<char>::empty()] + split_slash(s.drop_first())
    } else {
        let rest = split_slash(s.drop_first());
        seq![seq![s[0]] + rest[0]] + rest.drop_first()
    }
}

proof fn lemma_split_slash_len(s: Seq<char>)
    ensures
        split_slash(s).len() >= 1,
    decreases s.len(),
{
    if s.len() > 0 {
        lemma_split_slash_len(s.drop_first());
    }
}

/// The path string with the given components, `/` between each pair.
pub open spec fn join_slash(parts: Seq<Seq<char>>) -> Seq<char>
    decreases parts.len(),
{
    if parts.len() == 0 {
        Seq::empty()
    } else if parts.len() == 1 {
        parts[0]
    } else {
        join_slash(parts.drop_last()) + seq!['/'] + parts.last()
    }
}

proof fn lemma_split_slash_push(s: Seq<char>, c: char)
    ensures
        c == '/' ==> split_slash(s.push(c)) =~~= split_slash(s).push(Seq::<char>::empty()),
        c != '/' ==> split_slash(s.push(c)) =~~= split_slash(s).update(
            split_slash(s).len() - 1,
            split_slash(s).last().push(c),
        ),
    decreases s.len(),
{
    lemma_split_slash_len(s);
    if s.len() == 0 {
        assert(s.push(c)[0] == c);
        assert(s.push(c).drop_first() =~= Seq::<char>::empty());
        if c == '/' {
            assert(split_slash(s.push(c)) =~~= seq![Seq::<char>::empty()] + split_slash(
                Seq::<char>::empty(),
            ));
            assert(split_slash(s).push(Seq::<char>::empty()) =~~= seq![
                s,
                Seq::<char>::empty(),
            ]);
        } else {
            let t = s.push(c);
            assert(t[0] == c);
            assert(split_slash(t) =~~= seq![seq![c] + split_slash(t.drop_first())[0]]
                + split_slash(t.drop_first()).drop_first());
            assert(split_slash(t.drop_first()) =~~= seq![t.drop_first()]);
            assert(seq![c] + t.drop_first() =~= t);
            assert(split_slash(t) =~~= seq![t]);
            assert(split_slash(s).update(
                split_slash(s).len() - 1,
                split_slash(s).last().push(c),
            ) =~~= seq![t]);
        }
    } else {
        assert(s.push(c)[0] == s[0]);
        assert(s.push(c).drop_first() =~= s.drop_first().push(c));
        lemma_split_slash_push(s.drop_first(), c);
        lemma_split_slash_len(s.drop_first());
    }
}

/// Splits a path into its `/`-separated components.
pub fn path_components(p: &str) -> (r: Vec<String>)
    ensures
        views_of(r@) == split_slash(p@),
{
    let len = p.unicode_len();
    let mut r: Vec<String> = Vec::new();
    let mut cur = String::new();
    let mut i: usize = 0;
    while i < len
        invariant
            i <= len,
            len == p@.len(),
            split_slash(p@.take(i as int)) =~~= views_of(r@).push(cur@),
        decreases len - i,
    {
        let c = p.get_char(i);
        proof {
            assert(p@.take(i as int + 1) =~= p@.take(i as int).push(p@[i as int]));
            lemma_split_slash_push(p@.take(i as int), p@[i as int]);
            lemma_split_slash_len(p@.take(i as int));
        }
        if c == '/' {
            r.push(cur);
            cur = String::new();
            proof {
                assert(views_of(r@).push(cur@) =~~= split_slash(p@.take(i as int)).push(
                    Seq::<char>::empty(),
                ));
            }
        } else {
            crate::text::push_char(&mut cur, c);
            proof {
                let prev = split_slash(p@.take(i as int));
                assert(views_of(r@).push(cur@) =~~= prev.update(
                    prev.len() - 1,
                    prev.last().push(p@[i as int]),
                ));
            }
        }
        i = i + 1;
    }
    r.push(cur);
    proof {
        assert(p@.take(len as int) =~= p@);
        assert(views_of(r@) =~~= split_slash(p@));
    }
    r
}

/// Joins components back into a path string, `/` between each pair.
pub fn join_components(parts: &Vec<String>) -> (r: String)
    requires
        parts@.len() >= 1,
    ensures
        r@ == join_slash(views_of(parts@)),
{
    let mut r = parts[0].clone();
    let mut i: usize = 1;
    proof {
        assert(views_of(parts@).take(1) =~= seq![parts@[0]@]);
        assert(join_slash(seq![parts@[0]@]) == parts@[0]@);
    }
    while i < parts.len()
        invariant
            1 <= i <= parts@.len(),
            r@ == join_slash(views_of(parts@).take(i as int)),
        decreases parts@.len() - i,
    {
        r.append("/");
        r.append(parts[i].as_str());
        proof {
            reveal_strlit("/");
            let pv = views_of(parts@);
            assert(pv.take(i as int + 1).drop_last() =~= pv.take(i as int));
            assert(pv.take(i as int + 1).last() == pv[i as int]);
            assert(r@ =~= join_slash(pv.take(i as int)) + seq!['/'] + pv[i as int]);
        }
        i = i + 1;
    }
    proof {
        assert(views_of(parts@).take(parts@.len() as int) =~= views_of(parts@));
    }
    r
}

/// Appends one path component to a directory path.
pub fn path_join(dir: &str, name: &str) -> (r: String)
    ensures
        r@ == dir@ + "/"@ + name@,
{
    let mut r = String::from_str(dir);
    r.append("/");
    r.append(name);
    r
}

/// The directory holding the path: all components but the last.
/// A path with a single component has no parent here.
pub fn path_parent(p: &str) -> (r: Option<String>)
    ensures
        split_slash(p@).len() == 1 ==> r is None,
        split_slash(p@).len() > 1 ==> r is Some && r->0@ == join_slash(
            split_slash(p@).drop_last(),
        ),
{
    let mut parts = path_components(p);
    if parts.len() <= 1 {
        return None;
    }
    let ghost old_parts = parts@;
    let _last = parts.pop();
    proof {
        assert(views_of(parts@) =~= views_of(old_parts).drop_last());
    }
    Some(join_components(&parts))
}

/// The path with its final component replaced by `name`; just `name`
/// when the path has a single component.
pub open spec fn set_file_name_spec(p: Seq<char>, name: Seq<char>) -> Seq<char> {
    if split_slash(p).len() <= 1 {
        name
    } else {
        join_slash(split_slash(p).drop_last()) + "/"@ + name
    }
}

/// Replaces the path's final component by `name`.
pub fn set_file_name(p: &str, name: &str) -> (r: String)
    ensures
        r@ == set_file_name_spec(p@, name@),
{
    match path_parent(p) {
        None => String::from_str(name),
        Some(parent) => path_join(parent.as_str(), name),
    }
}

/// The joins of every ancestor of the given components with `name`,
/// innermost first: `a/b/c` yields `a/b/c/name`, `a/b/name`, `a/name`.
pub open spec fn ancestors_with(parts: Seq<Seq<char>>, name: Seq<char>) -> Seq<Seq<char>>
    decreases parts.len(),
{
    if parts.len() == 0 {
        Seq::empty()
    } else {
        seq![join_slash(parts) + "/"@ + name] + ancestors_with(parts.drop_last(), name)
    }
}

/// Lists, innermost first, the path of `name` inside the given directory
/// and inside each of its ancestors.
pub fn ancestor_candidates(p: &str, name: &str) -> (r: Vec<String>)
    ensures
        views_of(r@) == ancestors_with(split_slash(p@), name@),
{
    let mut parts = path_components(p);
    let mut r: Vec<String> = Vec::new();
    proof {
        assert(views_of(r@) =~= Seq::<Seq<char>>::empty());
        assert(ancestors_with(split_slash(p@), name@) =~= views_of(r@) + ancestors_with(
            views_of(parts@),
            name@,
        ));
    }
    loop
        invariant
            ancestors_with(split_slash(p@), name@) =~= views_of(r@) + ancestors_with(
                views_of(parts@),
                name@,
            ),
        ensures
            views_of(r@) =~= ancestors_with(split_slash(p@), name@),
        decreases parts@.len(),
    {
        if parts.len() == 0 {
            proof {
                assert(ancestors_with(views_of(parts@), name@) =~= Seq::<Seq<char>>::empty());
                assert(views_of(r@) + Seq::<Seq<char>>::empty() =~= views_of(r@));
            }
            break;
        }
        let joined = join_components(&parts);
        let candidate = path_join(joined.as_str(), name);
        let ghost old_r = r@;
        let ghost old_parts = parts@;
        r.push(candidate);
        let _last = parts.pop();
        proof {
            assert(views_of(parts@) =~= views_of(old_parts).drop_last());
            assert(views_of(r@) =~= views_of(old_r).push(
                join_slash(views_of(old_parts)) + "/"@ + name@,
            ));
            assert(ancestors_with(views_of(old_parts), name@) =~= seq![
                join_slash(views_of(old_parts)) + "/"@ + name@,
            ] + ancestors_with(views_of(parts@), name@));
            assert(views_of(r@) + ancestors_with(views_of(parts@), name@) =~= views_of(old_r)
                + ancestors_with(views_of(old_parts), name@));
        }
    }
    r
}

/// Whether the path is absolute: it starts with `/`.
pub fn path_is_absolute(p: &str) -> (r: bool)
    ensures
        r == (p@.len() > 0 && p@[0] == '/'),
{
    if p.unicode_len() == 0 {
        return false;
    }
    let c = p.get_char(0);
    c == '/'
}

/// The components after the last occurrence of `name`; all of them when
/// `name` does not occur.
pub open spec fn suffix_after_last(parts: Seq<Seq<char>>, name: Seq<char>) -> Seq<Seq<char>>
    decreases parts.len(),
{
    if parts.len() == 0 {
        parts
    } else if parts.last() == name {
        Seq::empty()
    } else {
        suffix_after_last(parts.drop_last(), name).push(parts.last())
    }
}

/// The components before the first occurrence of `name`; all of them when
/// `name` does not occur.
pub open spec fn prefix_before_first(parts: Seq<Seq<char>>, name: Seq<char>) -> Seq<Seq<char>>
    decreases parts.len(),
{
    if parts.len() == 0 {
        parts
    } else if parts[0] == name {
        Seq::empty()
    } else {
        seq![parts[0]] + prefix_before_first(parts.drop_first(), name)
    }
}

proof fn lemma_suffix_after_last_at(parts: Seq<Seq<char>>, name: Seq<char>, k: int)
    requires
        0 <= k < parts.len(),
        parts[k] == name,
        forall|l: int| k < l < parts.len() ==> parts[l] != name,
    ensures
        suffix_after_last(parts, name) =~= parts.skip(k + 1),
    decreases parts.len(),
{
    if k == parts.len() - 1 {
        assert(parts.last() == name);
        assert(parts.skip(k + 1) =~= Seq::<Seq<char>>::empty());
    } else {
        assert(parts.last() != name);
        lemma_suffix_after_last_at(parts.drop_last(), name, k);
        assert(parts.drop_last().skip(k + 1).push(parts.last()) =~= parts.skip(k + 1));
    }
}

proof fn lemma_suffix_after_last_none(parts: Seq<Seq<char>>, name: Seq<char>)
    requires
        forall|l: int| 0 <= l < parts.len() ==> parts[l] != name,
    ensures
        suffix_after_last(parts, name) =~= parts,
    decreases parts.len(),
{
    if parts.len() > 0 {
        lemma_suffix_after_last_none(parts.drop_last(), name);
        assert(parts.drop_last().push(parts.last()) =~= parts);
    }
}

proof fn lemma_prefix_before_first_at(parts: Seq<Seq<char>>, name: Seq<char>, k: int)
    requires
        0 <= k < parts.len(),
        parts[k] == name,
        forall|l: int| 0 <= l < k ==> parts[l] != name,
    ensures
        prefix_before_first(parts, name) =~= parts.take(k),
    decreases parts.len(),
{
    if k == 0 {
        assert(parts.take(0) =~= Seq::<Seq<char>>::empty());
    } else {
        assert(parts[0] != name);
        assert(parts.drop_first()[k - 1] == name);
        lemma_prefix_before_first_at(parts.drop_first(), name, k - 1);
        assert(seq![parts[0]] + parts.drop_first().take(k - 1) =~= parts.take(k));
    }
}

proof fn lemma_prefix_before_first_none(parts: Seq<Seq<char>>, name: Seq<char>)
    requires
        forall|l: int| 0 <= l < parts.len() ==> parts[l] != name,
    ensures
        prefix_before_first(parts, name) =~= parts,
    decreases parts.len(),
{
    if parts.len() > 0 {
        lemma_prefix_before_first_none(parts.drop_first(), name);
        assert(seq![parts[0]] + parts.drop_first() =~= parts);
    }
}

/// The profile directory inferred from a build path: the component that
/// lies between the last `target` component and the first following
/// `wbuild` component. `None` when nothing lies there.
pub open spec fn inferred_profile_dir(parts: Seq<Seq<char>>) -> Option<Seq<char>> {
    let pre = prefix_before_first(suffix_after_last(parts, "target"@), "wbuild"@);
    if pre.len() == 0 {
        None
    } else {
        Some(pre.last())
    }
}

/// Scans the path components for the profile directory between the
/// `target` and `wbuild` anchors.
pub fn scan_profile_dir(parts: &Vec<String>) -> (r: Option<String>)
    ensures
        match r {
            Some(s) => inferred_profile_dir(views_of(parts@)) == Some(s@),
            None => inferred_profile_dir(views_of(parts@)) is None,
        },
{
    let ghost pv = views_of(parts@);
    let n = parts.len();
    // Find the component index just after the last `target`.
    let mut start: usize = n;
    loop
        invariant
            0 <= start <= n,
            n == parts@.len(),
            pv == views_of(parts@),
            forall|l: int| start <= l < n ==> pv[l] != "target"@,
        ensures
            0 <= start <= n,
            suffix_after_last(pv, "target"@) =~= pv.skip(start as int),
        decreases start,
    {
        if start == 0 {
            proof {
                lemma_suffix_after_last_none(pv, "target"@);
                assert(pv.skip(0) =~= pv);
            }
            break;
        }
        if crate::text::str_eq(parts[start - 1].as_str(), "target") {
            proof {
                lemma_suffix_after_last_at(pv, "target"@, start - 1);
            }
            break;
        }
        start = start - 1;
    }
    let ghost suffix = pv.skip(start as int);
    // Find the first `wbuild` at or after `start`.
    let mut stop: usize = start;
    loop
        invariant
            start <= stop <= n,
            n == parts@.len(),
            pv == views_of(parts@),
            suffix == pv.skip(start as int),
            suffix_after_last(pv, "target"@) == suffix,
            forall|l: int| start <= l < stop ==> pv[l] != "wbuild"@,
        ensures
            start <= stop <= n,
            prefix_before_first(suffix, "wbuild"@) =~= pv.subrange(start as int, stop as int),
        decreases n - stop,
    {
        if stop == n {
            proof {
                assert(forall|l: int| 0 <= l < suffix.len() ==> suffix[l] != "wbuild"@);
                lemma_prefix_before_first_none(suffix, "wbuild"@);
                assert(pv.skip(start as int) =~= pv.subrange(start as int, n as int));
            }
            break;
        }
        if crate::text::str_eq(parts[stop].as_str(), "wbuild") {
            proof {
                assert(suffix[stop - start] == "wbuild"@);
                lemma_prefix_before_first_at(suffix, "wbuild"@, stop - start);
                assert(suffix.take(stop - start) =~= pv.subrange(start as int, stop as int));
            }
            break;
        }
        stop = stop + 1;
    }
    if stop == start {
        None
    } else {
        let r = parts[stop - 1].clone();
        proof {
            assert(pv.subrange(start as int, stop as int).last() == pv[stop - 1]);
        }
        Some(r)
    }
}

/// The workspace root: the parent of the innermost trailing `build`
/// component found by walking the path upward. `None` when no such
/// component exists.
pub open spec fn workspace_root_parts(parts: Seq<Seq<char>>) -> Option<Seq<Seq<char>>>
    decreases parts.len(),
{
    if parts.len() == 0 {
        None
    } else if parts.last() == "build"@ && parts.len() >= 2 {
        Some(parts.drop_last())
    } else {
        workspace_root_parts(parts.drop_last())
    }
}

/// Walks the given path upward until a component named `build` is found,
/// and returns the path holding everything before it.
pub fn find_workspace_root(out_dir: &str) -> (r: Option<String>)
    ensures
        match r {
            Some(s) => workspace_root_parts(split_slash(out_dir@)) == Some(split_slash(s@))
                && s@ == join_slash(split_slash(s@)),
            None => workspace_root_parts(split_slash(out_dir@)) is None,
        },
{
    let mut parts = path_components(out_dir);
    proof {
        lemma_split_slash_len(out_dir@);
        lemma_split_slash_no_slash(out_dir@);
    }
    loop
        invariant
            workspace_root_parts(views_of(parts@)) == workspace_root_parts(
                split_slash(out_dir@),
            ),
            forall|k: int|
                0 <= k < views_of(parts@).len() ==> !(#[trigger] views_of(parts@)[k]).contains(
                    '/',
                ),
        decreases parts@.len(),
    {
        if parts.len() == 0 {
            return None;
        }
        let n = parts.len();
        if n >= 2 && crate::text::str_eq(parts[n - 1].as_str(), "build") {
            let ghost old_parts = parts@;
            let _last = parts.pop();
            proof {
                assert(views_of(parts@) =~= views_of(old_parts).drop_last());
            }
            let joined = join_components(&parts);
            proof {
                lemma_split_of_join(views_of(parts@));
            }
            return Some(joined);
        }
        let ghost old_parts = parts@;
        let _last = parts.pop();
        proof {
            assert(views_of(parts@) =~= views_of(old_parts).drop_last());
        }
    }
}

/// Joining slash-free components yields a path that splits back to the
/// same components.
proof fn lemma_split_of_join(parts: Seq<Seq<char>>)
    requires
        parts.len() >= 1,
    ensures
        parts_splittable(parts) ==> split_slash(join_slash(parts)) == parts,
{
    if parts_splittable(parts) {
        lemma_split_of_join_rec(parts);
    }
}

/// Components that a path string can carry faithfully: at least one,
/// none holding a `/`.
pub open spec fn parts_splittable(parts: Seq<Seq<char>>) -> bool {
    &&& parts.len() >= 1
    &&& forall|k: int| 0 <= k < parts.len() ==> !(#[trigger] parts[k]).contains('/')
}

/// Every component a split produces is free of `/`.
proof fn lemma_split_slash_no_slash(s: Seq<char>)
    ensures
        forall|k: int|
            0 <= k < split_slash(s).len() ==> !(#[trigger] split_slash(s)[k]).contains('/'),
    decreases s.len(),
{
    if s.len() == 0 {
        assert(!s.contains('/'));
    } else if s[0] == '/' {
        lemma_split_slash_no_slash(s.drop_first());
        let t = split_slash(s);
        let rest = split_slash(s.drop_first());
        assert forall|k: int| 0 <= k < t.len() implies !(#[trigger] t[k]).contains('/') by {
            if k == 0 {
                assert(t[0] =~= Seq::<char>::empty());
                assert(!t[0].contains('/'));
            } else {
                assert(t[k] == rest[k - 1]);
            }
        }
    } else {
        lemma_split_slash_no_slash(s.drop_first());
        lemma_split_slash_len(s.drop_first());
        let t = split_slash(s);
        let rest = split_slash(s.drop_first());
        assert forall|k: int| 0 <= k < t.len() implies !(#[trigger] t[k]).contains('/') by {
            if k == 0 {
                assert(t[0] == seq![s[0]] + rest[0]);
                if t[0].contains('/') {
                    let i = choose|i: int| 0 <= i < t[0].len() && t[0][i] == '/';
                    if i == 0 {
                        assert(s[0] == '/');
                    } else {
                        assert(rest[0][i - 1] == '/');
                        assert(rest[0].contains('/'));
                    }
                }
            } else {
                assert(t[k] == rest.drop_first()[k - 1]);
                assert(rest.drop_first()[k - 1] == rest[k]);
            }
        }
    }
}

proof fn lemma_split_of_join_rec(parts: Seq<Seq<char>>)
    requires
        parts_splittable(parts),
    ensures
        split_slash(join_slash(parts)) =~~= parts,
    decreases parts.len(),
{
    if parts.len() == 1 {
        lemma_split_no_slash(parts[0]);
        assert(split_slash(join_slash(parts)) =~~= seq![parts[0]]);
        assert(seq![parts[0]] =~~= parts);
    } else {
        assert(parts.drop_last().len() >= 1);
        assert(parts_splittable(parts.drop_last())) by {
            assert(forall|k: int|
                0 <= k < parts.len() - 1 ==> parts.drop_last()[k] == parts[k]);
        }
        lemma_split_of_join_rec(parts.drop_last());
        lemma_split_append_component(join_slash(parts.drop_last()), parts.last());
        assert(split_slash(join_slash(parts)) =~~= split_slash(join_slash(parts.drop_last()))
            .push(parts.last()));
        assert(split_slash(join_slash(parts.drop_last())).push(parts.last()) =~~= parts);
    }
}

/// Splitting a component that holds no `/` yields just that component.
proof fn lemma_split_no_slash(s: Seq<char>)
    requires
        !s.contains('/'),
    ensures
        split_slash(s) =~~= seq![s],
    decreases s.len(),
{
    if s.len() > 0 {
        assert(s[0] != '/') by {
            assert(s.contains('/') <==> exists|i: int| 0 <= i < s.len() && s[i] == '/');
        }
        assert(!s.drop_first().contains('/')) by {
            if s.drop_first().contains('/') {
                let i = choose|i: int|
                    0 <= i < s.drop_first().len() && s.drop_first()[i] == '/';
                assert(s[i + 1] == '/');
            }
        }
        lemma_split_no_slash(s.drop_first());
        assert(split_slash(s) =~~= seq![seq![s[0]] + s.drop_first()]);
        assert(seq![s[0]] + s.drop_first() =~= s);
    }
}

/// Appending `/` and a slash-free component to a path adds exactly one
/// component to its split.
proof fn lemma_split_append_component(base: Seq<char>, comp: Seq<char>)
    requires
        !comp.contains('/'),
    ensures
        split_slash(base + seq!['/'] + comp) =~~= split_slash(base).push(comp),
    decreases comp.len(),
{
    if comp.len() == 0 {
        assert(base + seq!['/'] + comp =~= base.push('/'));
        lemma_split_slash_push(base, '/');
        assert(comp =~= Seq::<char>::empty());
    } else {
        assert(!comp.drop_last().contains('/')) by {
            if comp.drop_last().contains('/') {
                let i = choose|i: int|
                    0 <= i < comp.drop_last().len() && comp.drop_last()[i] == '/';
                assert(comp[i] == '/');
            }
        }
        lemma_split_append_component(base, comp.drop_last());
        assert(base + seq!['/'] + comp =~= (base + seq!['/'] + comp.drop_last()).push(
            comp.last(),
        ));
        lemma_split_slash_push(base + seq!['/'] + comp.drop_last(), comp.last());
        assert(comp.last() != '/') by {
            assert(comp.contains('/') <==> exists|i: int| 0 <= i < comp.len() && comp[i] == '/');
        }
        let mid = split_slash(base).push(comp.drop_last());
        lemma_split_slash_len(base);
        assert(split_slash(base + seq!['/'] + comp) =~~= mid.update(
            mid.len() - 1,
            mid.last().push(comp.last()),
        ));
        assert(comp.drop_last().push(comp.last()) =~= comp);
    }
}

} // verus!
