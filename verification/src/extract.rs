//! Where the entries of an archive go.
//!
//! The forge wraps the content of an archive in one directory. An entry is
//! unpacked without that directory, and only to a place below the target
//! directory.

use crate::error::GitterError;
use crate::text::{chars_of, views_of};
use vstd::prelude::*;
use vstd::string::StringExecFns;

verus! {

/// The pieces of `path` between its slashes. A path without a slash is one
/// piece; two slashes in a row have an empty piece between them.
pub open spec fn pieces(path: Seq<char>) -> Seq<Seq<char>>
    decreases path.len(),
{
    if path.len() == 0 {
        seq![Seq::empty()]
    } else {
        let before = pieces(path.drop_last());
        if path.last() == '/' {
            before.push(Seq::empty())
        } else {
            before.drop_last().push(before.last().push(path.last()))
        }
    }
}

/// A piece that names something: not empty, and not `.`.
pub open spec fn is_component(piece: Seq<char>) -> bool {
    piece.len() > 0 && piece != seq!['.']
}

/// The piece `..`, which names the directory above.
pub open spec fn is_parent(piece: Seq<char>) -> bool {
    piece == seq!['.', '.']
}

/// The components of `path`: its pieces, without the empty ones and `.`.
pub open spec fn components(path: Seq<char>) -> Seq<Seq<char>> {
    pieces(path).filter(|p: Seq<char>| is_component(p))
}

/// The directories and the name that `comps` leads through, starting in the
/// target directory: `..` takes the last one back. `None` where `comps`
/// leads above the target directory.
pub open spec fn resolve(comps: Seq<Seq<char>>) -> Option<Seq<Seq<char>>>
    decreases comps.len(),
{
    if comps.len() == 0 {
        Some(Seq::empty())
    } else {
        match resolve(comps.drop_last()) {
            None => None,
            Some(below) => if is_parent(comps.last()) {
                if below.len() == 0 {
                    None
                } else {
                    Some(below.drop_last())
                }
            } else {
                Some(below.push(comps.last()))
            },
        }
    }
}

/// `comps` with a slash between each two.
pub open spec fn join_components(comps: Seq<Seq<char>>) -> Seq<char>
    decreases comps.len(),
{
    if comps.len() == 0 {
        Seq::empty()
    } else if comps.len() == 1 {
        comps[0]
    } else {
        join_components(comps.drop_last()) + seq!['/'] + comps.last()
    }
}

/// The components of the place below the target directory to which the
/// entry `path` is unpacked: those of `path` without the first, the wrapper
/// directory, and with each `..` resolved. `None` where `path` has no
/// component, or leads out of the target directory.
pub open spec fn target_components(path: Seq<char>) -> Option<Seq<Seq<char>>> {
    let comps = components(path);
    if comps.len() == 0 {
        None
    } else {
        resolve(comps.skip(1))
    }
}

/// The place of the entry `path`, relative to the target directory.
pub open spec fn target_of(path: Seq<char>) -> Option<Seq<char>> {
    match target_components(path) {
        Some(comps) => Some(join_components(comps)),
        None => None,
    }
}

/// Whether `v[from..to]` is a component.
fn component_in(v: &Vec<char>, from: usize, to: usize) -> (r: bool)
    requires
        from <= to <= v.len(),
    ensures
        r == is_component(v@.subrange(from as int, to as int)),
{
    let ghost piece = v@.subrange(from as int, to as int);
    if from == to {
        false
    } else if to - from == 1 && v[from] == '.' {
        assert(piece =~= seq!['.']);
        false
    } else {
        assert(seq!['.'].len() == 1 && seq!['.'][0] == '.');
        assert(piece.len() == to - from && piece[0] == v@[from as int]);
        true
    }
}

/// The components of `path`.
pub fn split_components(path: &str) -> (comps: Vec<String>)
    ensures
        views_of(comps@) == components(path@),
{
    let chars = chars_of(path);
    let n = chars.len();
    let ghost s = path@;
    let ghost keep = |p: Seq<char>| is_component(p);
    let ghost done: Seq<Seq<char>> = Seq::empty();
    let mut comps: Vec<String> = Vec::new();
    let mut start: usize = 0;
    let mut i: usize = 0;
    proof {
        reveal(Seq::filter);
        assert(s.take(0) =~= Seq::<char>::empty());
        assert(pieces(s.take(0)) =~= done.push(s.subrange(0, 0)));
        assert(views_of(comps@) =~= done.filter(keep));
    }
    while i < n
        invariant
            start <= i <= n == chars.len(),
            chars@ == s,
            s == path@,
            keep == |p: Seq<char>| is_component(p),
            pieces(s.take(i as int)) == done.push(s.subrange(start as int, i as int)),
            views_of(comps@) == done.filter(keep),
        decreases n - i,
    {
        proof {
            assert(s.take(i + 1).drop_last() =~= s.take(i as int));
            assert(s.take(i + 1).last() == s[i as int]);
        }
        if chars[i] == '/' {
            let ghost piece = s.subrange(start as int, i as int);
            if component_in(&chars, start, i) {
                let comp = path.substring_char(start, i).to_owned();
                let ghost before = views_of(comps@);
                comps.push(comp);
                assert(views_of(comps@) =~= before.push(piece));
            }
            proof {
                reveal(Seq::filter);
                assert(done.push(piece).drop_last() =~= done);
                done = done.push(piece);
                assert(s.subrange(i + 1, i + 1) =~= Seq::<char>::empty());
            }
            start = i + 1;
        } else {
            proof {
                let cur = s.subrange(start as int, i as int);
                assert(done.push(cur).drop_last() =~= done);
                assert(cur.push(s[i as int]) =~= s.subrange(start as int, i + 1));
            }
        }
        i += 1;
    }
    let ghost piece = s.subrange(start as int, n as int);
    assert(s.take(n as int) =~= s);
    if component_in(&chars, start, n) {
        let comp = path.substring_char(start, n).to_owned();
        let ghost before = views_of(comps@);
        comps.push(comp);
        assert(views_of(comps@) =~= before.push(piece));
    }
    proof {
        reveal(Seq::filter);
        assert(done.push(piece).drop_last() =~= done);
    }
    comps
}

/// Whether `s` is `..`.
fn parent(s: &str) -> (r: bool)
    ensures
        r == is_parent(s@),
{
    let v = chars_of(s);
    let r = v.len() == 2 && v[0] == '.' && v[1] == '.';
    proof {
        if r {
            assert(s@ =~= seq!['.', '.']);
        }
    }
    r
}

/// `comps` with a slash between each two.
fn joined(comps: &Vec<String>) -> (path: String)
    ensures
        path@ == join_components(views_of(comps@)),
{
    let mut path = String::new();
    let ghost all = views_of(comps@);
    let mut i: usize = 0;
    while i < comps.len()
        invariant
            i <= comps.len(),
            all == views_of(comps@),
            path@ == join_components(all.take(i as int)),
        decreases comps.len() - i,
    {
        proof {
            reveal_strlit("/");
            assert(all.take(i + 1).drop_last() =~= all.take(i as int));
            assert(all.take(i + 1).last() == comps@[i as int]@);
            assert("/"@ =~= seq!['/']);
        }
        if i > 0 {
            path.append("/");
        } else {
            assert(all.take(1)[0] == comps@[0]@);
            assert(Seq::<char>::empty() + comps@[0]@ =~= comps@[0]@);
        }
        path.append(comps[i].as_str());
        i += 1;
    }
    assert(all.take(i as int) =~= all);
    path
}

/// Where the archive entry `entry_path` is unpacked, relative to the target
/// directory: its path without the first component, the wrapper directory.
/// An entry without a component, or whose path leads out of the target
/// directory, is refused.
pub fn entry_target(entry_path: &str) -> (r: Result<String, GitterError>)
    ensures
        match target_of(entry_path@) {
            Some(target) => r matches Ok(path) && path@ == target,
            None => r == Err::<String, GitterError>(GitterError::ExtractionError),
        },
{
    let comps = split_components(entry_path);
    if comps.len() == 0 {
        return Err(GitterError::ExtractionError);
    }
    let ghost rest = views_of(comps@).skip(1);
    let mut below: Vec<String> = Vec::new();
    let mut i: usize = 1;
    assert(rest.take(0) =~= Seq::<Seq<char>>::empty());
    assert(views_of(below@) =~= Seq::<Seq<char>>::empty());
    while i < comps.len()
        invariant
            1 <= i <= comps.len(),
            rest == views_of(comps@).skip(1),
            views_of(comps@) == components(entry_path@),
            resolve(rest.take(i - 1)) == Some(views_of(below@)),
        decreases comps.len() - i,
    {
        proof {
            assert(rest.take(i as int).drop_last() =~= rest.take(i - 1));
            assert(rest.take(i as int).last() == comps@[i as int]@);
        }
        if parent(comps[i].as_str()) {
            if below.len() == 0 {
                proof {
                    lemma_resolve_stays_none(rest, i as int);
                }
                return Err(GitterError::ExtractionError);
            }
            let ghost before = views_of(below@);
            below.pop();
            assert(views_of(below@) =~= before.drop_last());
        } else {
            let ghost before = views_of(below@);
            below.push(comps[i].clone());
            assert(views_of(below@) =~= before.push(comps@[i as int]@));
        }
        i += 1;
    }
    assert(rest.take(i - 1) =~= rest);
    Ok(joined(&below))
}

/// Once a path has led above the target directory, nothing that follows
/// brings it back.
proof fn lemma_resolve_stays_none(comps: Seq<Seq<char>>, k: int)
    requires
        0 <= k <= comps.len(),
        resolve(comps.take(k)) is None,
    ensures
        resolve(comps) is None,
    decreases comps.len() - k,
{
    if k < comps.len() {
        assert(comps.take(k + 1).drop_last() =~= comps.take(k));
        lemma_resolve_stays_none(comps, k + 1);
    } else {
        assert(comps.take(k) =~= comps);
    }
}

/// The name of a file or a directory: not empty, without a slash, and
/// neither `.` nor `..`.
pub open spec fn is_plain_name(c: Seq<char>) -> bool {
    &&& c.len() > 0
    &&& forall|i: int| 0 <= i < c.len() ==> c[i] != '/'
    &&& c != seq!['.']
    &&& !is_parent(c)
}

proof fn lemma_pieces_hold_no_slash(path: Seq<char>)
    ensures
        pieces(path).len() >= 1,
        forall|k: int, i: int|
            0 <= k < pieces(path).len() && 0 <= i < pieces(path)[k].len() ==> pieces(path)[k][i]
                != '/',
    decreases path.len(),
{
    if path.len() > 0 {
        lemma_pieces_hold_no_slash(path.drop_last());
    }
}

proof fn lemma_resolved_are_given(comps: Seq<Seq<char>>)
    ensures
        resolve(comps) matches Some(below) ==> forall|k: int|
            0 <= k < below.len() ==> comps.contains(#[trigger] below[k]) && !is_parent(below[k]),
    decreases comps.len(),
{
    if comps.len() > 0 {
        let init = comps.drop_last();
        lemma_resolved_are_given(init);
        if let Some(below) = resolve(comps) {
            let before = resolve(init)->0;
            assert forall|k: int| 0 <= k < below.len() implies comps.contains(#[trigger] below[k])
                && !is_parent(below[k]) by {
                if k < before.len() {
                    assert(below[k] == before[k]);
                    let j = choose|j: int| 0 <= j < init.len() && init[j] == before[k];
                    assert(comps[j] == below[k]);
                } else {
                    assert(below[k] == comps[comps.len() - 1]);
                }
            }
        }
    }
}

proof fn lemma_pieces_of_plain(name: Seq<char>)
    requires
        forall|i: int| 0 <= i < name.len() ==> name[i] != '/',
    ensures
        pieces(name) == seq![name],
    decreases name.len(),
{
    if name.len() == 0 {
        assert(name =~= Seq::<char>::empty());
    } else {
        let init = name.drop_last();
        lemma_pieces_of_plain(init);
        assert(seq![init].drop_last() =~= Seq::<Seq<char>>::empty());
        assert(seq![init].last() == init);
        assert(init.push(name.last()) =~= name);
        assert(Seq::<Seq<char>>::empty().push(name) =~= seq![name]);
    }
}

proof fn lemma_pieces_after_slash(dir: Seq<char>, name: Seq<char>)
    requires
        forall|i: int| 0 <= i < name.len() ==> name[i] != '/',
    ensures
        pieces(dir + seq!['/'] + name) == pieces(dir).push(name),
    decreases name.len(),
{
    let path = dir + seq!['/'] + name;
    if name.len() == 0 {
        assert(path.drop_last() =~= dir);
        assert(name =~= Seq::<char>::empty());
    } else {
        lemma_pieces_after_slash(dir, name.drop_last());
        assert(path.drop_last() =~= dir + seq!['/'] + name.drop_last());
        assert(pieces(dir).push(name.drop_last()).drop_last() =~= pieces(dir));
        assert(name.drop_last().push(name.last()) =~= name);
    }
}

proof fn lemma_pieces_of_joined(comps: Seq<Seq<char>>)
    requires
        comps.len() >= 1,
        forall|k: int| 0 <= k < comps.len() ==> is_plain_name(#[trigger] comps[k]),
    ensures
        pieces(join_components(comps)) == comps,
    decreases comps.len(),
{
    if comps.len() == 1 {
        assert(is_plain_name(comps[0]));
        lemma_pieces_of_plain(comps[0]);
        assert(seq![comps[0]] =~= comps);
    } else {
        let init = comps.drop_last();
        assert forall|k: int| 0 <= k < init.len() implies is_plain_name(#[trigger] init[k]) by {
            assert(init[k] == comps[k]);
        }
        lemma_pieces_of_joined(init);
        assert(is_plain_name(comps[comps.len() - 1]));
        lemma_pieces_after_slash(join_components(init), comps.last());
        assert(init.push(comps.last()) =~= comps);
    }
}

proof fn lemma_plain_names_are_kept(comps: Seq<Seq<char>>)
    requires
        forall|k: int| 0 <= k < comps.len() ==> is_plain_name(#[trigger] comps[k]),
    ensures
        comps.filter(|p: Seq<char>| is_component(p)) == comps,
    decreases comps.len(),
{
    reveal(Seq::filter);
    if comps.len() > 0 {
        let init = comps.drop_last();
        assert forall|k: int| 0 <= k < init.len() implies is_plain_name(#[trigger] init[k]) by {
            assert(init[k] == comps[k]);
        }
        lemma_plain_names_are_kept(init);
        assert(is_plain_name(comps[comps.len() - 1]));
        assert(init.push(comps.last()) =~= comps);
    }
}

/// An entry that is unpacked stays below the target directory: its place is
/// a chain of plain names, none of them `..`, and these names are the
/// components of the path that `entry_target` returns.
pub proof fn lemma_target_stays_inside(path: Seq<char>)
    ensures
        target_components(path) matches Some(comps) ==> {
            &&& forall|k: int| 0 <= k < comps.len() ==> is_plain_name(#[trigger] comps[k])
            &&& target_of(path) == Some(join_components(comps))
            &&& components(join_components(comps)) == comps
        },
{
    if let Some(below) = target_components(path) {
        let all = pieces(path);
        let keep = |p: Seq<char>| is_component(p);
        let comps = all.filter(keep);
        let rest = comps.skip(1);
        lemma_pieces_hold_no_slash(path);
        lemma_resolved_are_given(rest);
        assert forall|k: int| 0 <= k < below.len() implies is_plain_name(#[trigger] below[k]) by {
            let j = choose|j: int| 0 <= j < rest.len() && rest[j] == below[k];
            assert(comps[j + 1] == below[k]);
            all.lemma_filter_pred(keep, j + 1);
            all.lemma_filter_contains_rev(keep, comps[j + 1]);
            let m = choose|m: int| 0 <= m < all.len() && all[m] == comps[j + 1];
            assert(all[m] == below[k]);
        }
        if below.len() == 0 {
            let only = seq![Seq::<char>::empty()];
            assert(pieces(join_components(below)) == only);
            assert(only.drop_last() =~= Seq::<Seq<char>>::empty());
            assert(!keep(only.last()));
            assert(only.filter(keep) =~= below) by {
                reveal(Seq::filter);
                assert(only.drop_last().filter(keep) =~= Seq::<Seq<char>>::empty());
            }
        } else {
            lemma_pieces_of_joined(below);
            lemma_plain_names_are_kept(below);
        }
    }
}

} // verus!
