//! The path sanitizer: the sole gate against directory traversal from
//! manifest paths and archive entry names. A candidate relative path is
//! rejected if it contains a NUL byte, an absolute or drive/volume prefix,
//! or a cumulative ascent (`..`) above the destination root; otherwise it is
//! normalized (`.` and empty components dropped, `..` resolved, components
//! joined with `/`). Both `/` and `\` separate components, so a name that
//! a foreign system would read as nested directories cannot smuggle an
//! ascent past the scan.
use vstd::prelude::*;

use crate::strutil::push_char;
use crate::strutil::str_contains_char;

verus! {

/// A path separator: the native one, or the foreign `\`, which this
/// sanitizer also treats as a separator so that no component can smuggle
/// one past the scan.
pub open spec fn spec_is_sep(c: char) -> bool {
    c == '/' || c == '\\'
}

/// Components of `s` split at separators; an empty string has one empty
/// component.
pub open spec fn spec_split_seps(s: Seq<char>) -> Seq<Seq<char>>
    decreases s.len(),
{
    if s.len() == 0 {
        seq![Seq::<char>::empty()]
    } else {
        let init = spec_split_seps(s.drop_last());
        if spec_is_sep(s.last()) {
            init.push(Seq::<char>::empty())
        } else {
            init.update(init.len() - 1, init.last().push(s.last()))
        }
    }
}

/// A component that the scan ignores: empty (doubled or trailing slashes)
/// or the current directory `.`.
pub open spec fn comp_skipped(c: Seq<char>) -> bool {
    c.len() == 0 || c == seq!['.']
}

/// A parent-reference component `..`.
pub open spec fn comp_parent(c: Seq<char>) -> bool {
    c == seq!['.', '.']
}

/// The normalized component stack after processing `comps` on top of `acc`:
/// a normal component pushes, `..` pops, `.` and empty components are
/// ignored; a pop of the empty stack is an ascent above the root and
/// rejects the path.
pub open spec fn spec_normalize_onto(comps: Seq<Seq<char>>, acc: Seq<Seq<char>>) -> Option<
    Seq<Seq<char>>,
>
    decreases comps.len(),
{
    if comps.len() == 0 {
        Some(acc)
    } else if comp_skipped(comps[0]) {
        spec_normalize_onto(comps.skip(1), acc)
    } else if comp_parent(comps[0]) {
        if acc.len() == 0 {
            None
        } else {
            spec_normalize_onto(comps.skip(1), acc.drop_last())
        }
    } else {
        spec_normalize_onto(comps.skip(1), acc.push(comps[0]))
    }
}

/// The components joined with '/'.
pub open spec fn spec_join_slash(comps: Seq<Seq<char>>) -> Seq<char>
    decreases comps.len(),
{
    if comps.len() == 0 {
        Seq::<char>::empty()
    } else if comps.len() == 1 {
        comps[0]
    } else {
        spec_join_slash(comps.drop_last()) + seq!['/'] + comps.last()
    }
}

/// An absolute path or a drive/volume prefix: a leading separator, or a
/// colon in the first component (a drive letter).
pub open spec fn spec_absolute_prefix(s: Seq<char>) -> bool {
    ||| s.len() > 0 && spec_is_sep(s[0])
    ||| spec_split_seps(s)[0].contains(':')
}

/// The sanitized, normalized components of a candidate relative path, or
/// `None` if the path must be rejected.
pub open spec fn spec_sanitize(s: Seq<char>) -> Option<Seq<Seq<char>>> {
    if s.contains('\0') || spec_absolute_prefix(s) {
        None
    } else {
        spec_normalize_onto(spec_split_seps(s), Seq::<Seq<char>>::empty())
    }
}

/// The running depth counter of the scan underflows: some `..` arrives when
/// the count of normal components before it, net of earlier `..`, is `depth`
/// or less.
pub open spec fn spec_ascent_underflows(comps: Seq<Seq<char>>, depth: int) -> bool
    decreases comps.len(),
{
    if comps.len() == 0 {
        false
    } else if comp_skipped(comps[0]) {
        spec_ascent_underflows(comps.skip(1), depth)
    } else if comp_parent(comps[0]) {
        depth <= 0 || spec_ascent_underflows(comps.skip(1), depth - 1)
    } else {
        spec_ascent_underflows(comps.skip(1), depth + 1)
    }
}

proof fn lemma_normalize_underflow(comps: Seq<Seq<char>>, acc: Seq<Seq<char>>)
    ensures
        (spec_normalize_onto(comps, acc) is None) == spec_ascent_underflows(
            comps,
            acc.len() as int,
        ),
    decreases comps.len(),
{
    if comps.len() == 0 {
    } else if comp_skipped(comps[0]) {
        lemma_normalize_underflow(comps.skip(1), acc);
    } else if comp_parent(comps[0]) {
        if acc.len() > 0 {
            lemma_normalize_underflow(comps.skip(1), acc.drop_last());
        }
    } else {
        lemma_normalize_underflow(comps.skip(1), acc.push(comps[0]));
    }
}

/// The sanitizer rejects a path exactly when it contains a NUL byte, an
/// absolute or drive/volume prefix, or a cumulative ascent above the root.
pub proof fn lemma_sanitize_rejects_iff(s: Seq<char>)
    ensures
        (spec_sanitize(s) is None) == (s.contains('\0') || spec_absolute_prefix(s)
            || spec_ascent_underflows(spec_split_seps(s), 0)),
{
    if !(s.contains('\0') || spec_absolute_prefix(s)) {
        lemma_normalize_underflow(spec_split_seps(s), Seq::<Seq<char>>::empty());
    }
}

/// Splits a string at separators into its components.
fn split_seps(s: &str) -> (r: Vec<String>)
    ensures
        r.deep_view() == spec_split_seps(s@),
        r.len() >= 1,
{
    let n = s.unicode_len();
    let mut done: Vec<String> = Vec::new();
    let mut cur: String = String::new();
    let mut i: usize = 0;
    proof {
        assert(s@.take(0) =~= Seq::<char>::empty());
        assert(done.deep_view().push(cur@) =~= spec_split_seps(s@.take(0)));
    }
    while i < n
        invariant
            n == s@.len(),
            0 <= i <= n,
            done.deep_view().push(cur@) == spec_split_seps(s@.take(i as int)),
        decreases n - i,
    {
        let c = s.get_char(i);
        proof {
            assert(s@.take(i as int + 1).drop_last() =~= s@.take(i as int));
            assert(s@.take(i as int + 1).last() == s@[i as int]);
        }
        if c == '/' || c == '\\' {
            let ghost prev = done.deep_view().push(cur@);
            done.push(cur);
            cur = String::new();
            proof {
                assert(done.deep_view().push(cur@) =~= prev.push(Seq::<char>::empty()));
            }
        } else {
            let ghost prev = done.deep_view().push(cur@);
            push_char(&mut cur, c);
            proof {
                assert(done.deep_view().push(cur@) =~= prev.update(
                    prev.len() - 1,
                    prev.last().push(c),
                ));
            }
        }
        i = i + 1;
    }
    proof {
        assert(s@.take(n as int) =~= s@);
    }
    let ghost prev = done.deep_view().push(cur@);
    done.push(cur);
    proof {
        assert(done.deep_view() =~= prev);
    }
    done
}

/// How the normalization scan treats one component.
enum CompKind {
    Skip,
    Parent,
    Normal,
}

fn classify(c: &String) -> (k: CompKind)
    ensures
        k is Skip <==> comp_skipped(c@),
        k is Parent <==> comp_parent(c@),
{
    let n = c.as_str().unicode_len();
    if n == 0 {
        CompKind::Skip
    } else if n == 1 && c.as_str().get_char(0) == '.' {
        proof {
            assert(c@ =~= seq!['.']);
        }
        CompKind::Skip
    } else if n == 2 && c.as_str().get_char(0) == '.' && c.as_str().get_char(1) == '.' {
        proof {
            assert(c@ =~= seq!['.', '.']);
            assert(c@ != seq!['.']) by {
                assert(seq!['.'].len() == 1);
            }
        }
        CompKind::Parent
    } else {
        proof {
            assert(seq!['.'].len() == 1);
            assert(seq!['.', '.'].len() == 2);
            if c@ == seq!['.'] {
                assert(c@[0] == '.');
            }
            if c@ == seq!['.', '.'] {
                assert(c@[0] == '.' && c@[1] == '.');
            }
        }
        CompKind::Normal
    }
}

/// Applies the depth-tracking normalization to a component list.
fn normalize_components(comps: &Vec<String>) -> (r: Option<Vec<String>>)
    ensures
        match r {
            Some(v) => spec_normalize_onto(comps.deep_view(), Seq::<Seq<char>>::empty()) == Some(
                v.deep_view(),
            ),
            None => spec_normalize_onto(comps.deep_view(), Seq::<Seq<char>>::empty()) is None,
        },
{
    let ghost all = comps.deep_view();
    let n = comps.len();
    let mut acc: Vec<String> = Vec::new();
    let mut i: usize = 0;
    proof {
        assert(all.skip(0) =~= all);
        assert(acc.deep_view() =~= Seq::<Seq<char>>::empty());
    }
    while i < n
        invariant
            n == comps.len(),
            comps.deep_view() == all,
            0 <= i <= n,
            spec_normalize_onto(all.skip(i as int), acc.deep_view()) == spec_normalize_onto(
                all,
                Seq::<Seq<char>>::empty(),
            ),
        decreases n - i,
    {
        proof {
            assert(all.skip(i as int)[0] == all[i as int]);
            assert(all.skip(i as int).skip(1) =~= all.skip(i as int + 1));
        }
        let kind = classify(&comps[i]);
        match kind {
            CompKind::Skip => {},
            CompKind::Parent => {
                let ghost pre = acc.deep_view();
                if acc.len() == 0 {
                    proof {
                        assert(spec_normalize_onto(all.skip(i as int), pre) is None);
                    }
                    return None;
                }
                let _ = acc.pop();
                proof {
                    assert(acc.deep_view() =~= pre.drop_last());
                }
            },
            CompKind::Normal => {
                let ghost pre = acc.deep_view();
                let comp = comps[i].clone();
                assert(comp@ == all[i as int]);
                acc.push(comp);
                proof {
                    assert(acc.deep_view() =~= pre.push(all[i as int]));
                }
            },
        }
        i = i + 1;
    }
    proof {
        assert(all.skip(n as int) =~= Seq::<Seq<char>>::empty());
    }
    Some(acc)
}

/// Joins components with '/'.
fn join_slash(comps: &Vec<String>) -> (r: String)
    ensures
        r@ == spec_join_slash(comps.deep_view()),
{
    let ghost all = comps.deep_view();
    let n = comps.len();
    let mut out = String::new();
    let mut i: usize = 0;
    proof {
        assert(all.take(0) =~= Seq::<Seq<char>>::empty());
    }
    while i < n
        invariant
            n == comps.len(),
            comps.deep_view() == all,
            0 <= i <= n,
            out@ == spec_join_slash(all.take(i as int)),
        decreases n - i,
    {
        proof {
            assert(all.take(i as int + 1).drop_last() =~= all.take(i as int));
            assert(all.take(i as int + 1).last() == all[i as int]);
        }
        if i > 0 {
            out.append("/");
            proof {
                reveal_strlit("/");
                assert("/"@ =~= seq!['/']);
            }
        }
        out.append(comps[i].as_str());
        proof {
            if i == 0 {
                assert(Seq::<char>::empty() + all[0] =~= all[0]);
                assert(all.take(1).len() == 1);
                assert(all.take(1)[0] == all[0]);
            }
        }
        i = i + 1;
    }
    proof {
        assert(all.take(n as int) =~= all);
    }
    out
}

/// Validates that a candidate relative path is confinable to a destination
/// root and returns its normalized form; `None` exactly on the paths that
/// `spec_sanitize` rejects (NUL byte, absolute or drive/volume prefix,
/// ascent above the root).
pub fn parse_and_sanitize_path(path: &str) -> (r: Option<String>)
    ensures
        r is Some <==> spec_sanitize(path@) is Some,
        r matches Some(p) ==> spec_sanitize(path@) matches Some(comps) && p@ == spec_join_slash(
            comps,
        ),
{
    if str_contains_char(path, '\0') {
        return None;
    }
    if path.unicode_len() > 0 {
        let c = path.get_char(0);
        if c == '/' || c == '\\' {
            return None;
        }
    }
    let comps = split_seps(path);
    if str_contains_char(comps[0].as_str(), ':') {
        return None;
    }
    match normalize_components(&comps) {
        Some(v) => Some(join_slash(&v)),
        None => None,
    }
}

} // verus!
