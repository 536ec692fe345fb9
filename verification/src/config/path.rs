//! File path configuration: a base path and the readable and writable roots,
//! and the check that a path lies under one of the roots.
use vstd::prelude::*;

use crate::text::{
    chars_of, is_white_space, joined, lemma_split_at_separator, lemma_split_joined, lemma_split_without_separator, lemma_trimmed_edges, split_on,
    trim_end, trim_range, trim_start, trimmed,
};

verus! {

// ---------------------------------------------------------------------------
// The file system and `std::path`, behind trusted items.
// ---------------------------------------------------------------------------

/// The name for what `std::path::Path::parent` returns for a path: the path
/// without its final component, `None` for a root, a prefix or the empty path.
pub uninterp spec fn parent_of(path: Seq<char>) -> Option<Seq<char>>;

/// `std::path::Path::parent`. Its result is named by [`parent_of`]; the
/// further facts stated are what its documentation gives: the empty path and
/// the root `/` have no parent.
#[verifier::external_body]
pub(crate) fn path_parent(path: &str) -> (r: Option<String>)
    ensures
        match r {
            Some(p) => parent_of(path@) == Some(p@),
            None => parent_of(path@) is None,
        },
        path@.len() == 0 ==> r is None,
        path@ == seq!['/'] ==> r is None,
{
    std::path::Path::new(path).parent().map(|p| p.to_string_lossy().into_owned())
}

/// The relation between a path and each answer that `std::path::Path::is_dir`
/// has given for it. The disk decides the answer, so nothing is claimed of two
/// calls: the relation records which answer came for which path.
pub uninterp spec fn dir_seen(path: Seq<char>, is_dir: bool) -> bool;

/// `std::path::Path::is_dir`: whether the path names an existing directory.
/// It reads the file system; what is stated is only that the answer is one
/// given for this path (see [`dir_seen`]).
#[verifier::external_body]
pub(crate) fn path_is_dir(path: &str) -> (r: bool)
    ensures
        dir_seen(path@, r),
{
    std::path::Path::new(path).is_dir()
}

/// The relation between a path and each answer that
/// `std::path::Path::is_symlink` has given for it. The disk decides the
/// answer, so nothing is claimed of two calls: the relation records which
/// answer came for which path.
pub uninterp spec fn link_seen(path: Seq<char>, is_link: bool) -> bool;

/// `std::path::Path::is_symlink`: whether the path itself is a symbolic link
/// (the link is not followed). It reads the file system; what is stated is
/// only that the answer is one given for this path (see [`link_seen`]).
#[verifier::external_body]
pub(crate) fn path_is_symlink(path: &str) -> (r: bool)
    ensures
        link_seen(path@, r),
{
    std::path::Path::new(path).is_symlink()
}

/// The relation between a path and each canonical form (as bytes) that
/// `std::path::Path::canonicalize` has answered for it. The disk decides the
/// answer, so nothing is claimed of two calls: the relation records which
/// answer came for which path.
pub uninterp spec fn canonical_of(path: Seq<char>, c: Seq<u8>) -> bool;

/// Whether `std::path::Path::canonicalize` has failed for `path` (the path, or
/// a directory on the way, does not exist or cannot be read); like
/// [`canonical_of`], a record of an answer given for this path.
pub uninterp spec fn unresolved(path: Seq<char>) -> bool;

/// `std::path::Path::canonicalize`, with the canonical path as its bytes (on
/// Unix the encoded bytes of a path are its bytes on disk), or the text of the
/// error. Which path comes back depends on the disk; the answer is recorded as
/// one given for `path` ([`canonical_of`], [`unresolved`]), and what the
/// documentation promises of any success is stated: it is absolute, and
/// normalized, so no component is `.` or `..` (see [`canonical_form`]).
#[verifier::external_body]
pub(crate) fn canonical_path(path: &str) -> (r: Result<Vec<u8>, String>)
    ensures
        r matches Ok(c) ==> canonical_form(c@) && canonical_of(path@, c@),
        r is Err ==> unresolved(path@),
{
    match std::path::Path::new(path).canonicalize() {
        Ok(p) => Ok(p.into_os_string().into_encoded_bytes()),
        Err(e) => Err(e.to_string()),
    }
}

/// Whether `path` is absolute: on Unix, whether it starts with the root `/`.
pub fn path_is_absolute(path: &str) -> (r: bool)
    ensures
        r == (path@.len() > 0 && path@[0] == '/'),
{
    let chars = chars_of(path);
    chars.len() > 0 && chars[0] == '/'
}

// ---------------------------------------------------------------------------
// Paths as bytes, and their components.
// ---------------------------------------------------------------------------

/// The byte `/`.
pub open spec fn slash() -> u8 {
    47u8
}

/// The byte `.`.
pub open spec fn dot() -> u8 {
    46u8
}

/// Whether a byte path starts at the root.
pub open spec fn rooted(s: Seq<u8>) -> bool {
    s.len() > 0 && s[0] == slash()
}

/// The form every canonical path has: absolute, and with no component that is
/// `.` or `..`.
pub open spec fn canonical_form(s: Seq<u8>) -> bool {
    &&& rooted(s)
    &&& forall|k: int|
        0 <= k < split_on(s, slash()).len() ==> #[trigger] split_on(s, slash())[k] != seq![dot()]
            && split_on(s, slash())[k] != seq![dot(), dot()]
}

/// The named pieces among `pieces`: the non-empty ones other than `.`.
pub open spec fn keep_parts(pieces: Seq<Seq<u8>>) -> Seq<Seq<u8>>
    decreases pieces.len(),
{
    if pieces.len() == 0 {
        Seq::empty()
    } else if pieces.last().len() > 0 && pieces.last() != seq![dot()] {
        keep_parts(pieces.drop_last()).push(pieces.last())
    } else {
        keep_parts(pieces.drop_last())
    }
}

/// The components of a path after its root, as `Path::components` reads them
/// for an absolute path: repeated and trailing separators and `.` left out.
pub open spec fn path_parts(s: Seq<u8>) -> Seq<Seq<u8>> {
    keep_parts(split_on(s, slash()))
}

/// Whether `base` is a prefix of `path` component by component (for absolute
/// paths, what `Path::starts_with` decides): both rooted or neither, and the
/// components of `base` begin those of `path`.
pub open spec fn component_prefix(path: Seq<u8>, base: Seq<u8>) -> bool {
    &&& rooted(path) == rooted(base)
    &&& path_parts(base).len() <= path_parts(path).len()
    &&& path_parts(path).take(path_parts(base).len() as int) == path_parts(base)
}

proof fn lemma_keep_parts_concat(x: Seq<Seq<u8>>, y: Seq<Seq<u8>>)
    ensures
        keep_parts(x + y) == keep_parts(x) + keep_parts(y),
    decreases y.len(),
{
    if y.len() == 0 {
        assert(x + y =~= x);
        assert(keep_parts(x) + keep_parts(y) =~= keep_parts(x));
    } else {
        assert((x + y).drop_last() =~= x + y.drop_last());
        lemma_keep_parts_concat(x, y.drop_last());
        if y.last().len() > 0 && y.last() != seq![dot()] {
            assert(keep_parts(x + y.drop_last()).push(y.last()) =~= keep_parts(x) + keep_parts(
                y.drop_last(),
            ).push(y.last()));
        }
    }
}

/// A root is a component prefix of every path that goes on below it, at any
/// depth: for a rooted `base` and any `rest`, the path `base/rest` lies under
/// `base`, so [`starts_with_components`] answers true on it.
pub proof fn law_root_prefixes_every_extension(base: Seq<u8>, rest: Seq<u8>)
    requires
        rooted(base),
    ensures
        component_prefix(base + seq![slash()] + rest, base),
{
    let path = base + seq![slash()] + rest;
    lemma_split_at_separator(base, rest, slash());
    lemma_keep_parts_concat(split_on(base, slash()), split_on(rest, slash()));
    let pb = path_parts(base);
    assert(path_parts(path) == pb + keep_parts(split_on(rest, slash())));
    assert(path_parts(path).take(pb.len() as int) =~= pb);
    assert(path[0] == base[0]);
}

/// Whether `n` is one named component: non-empty, without `/`, and not `.`.
pub open spec fn named_component(n: Seq<u8>) -> bool {
    &&& n.len() > 0
    &&& n != seq![dot()]
    &&& forall|j: int| 0 <= j < n.len() ==> n[j] != slash()
}

proof fn lemma_parts_of_child(parent: Seq<u8>, name: Seq<u8>)
    requires
        named_component(name),
    ensures
        path_parts(parent + seq![slash()] + name) == path_parts(parent).push(name),
{
    lemma_split_at_separator(parent, name, slash());
    lemma_split_without_separator(name, slash());
    lemma_keep_parts_concat(split_on(parent, slash()), seq![name]);
    assert(seq![name].drop_last() =~= Seq::<Seq<u8>>::empty());
    assert(seq![name].last() == name);
    assert(keep_parts(Seq::<Seq<u8>>::empty()) == Seq::<Seq<u8>>::empty());
    assert(Seq::<Seq<u8>>::empty().push(name) =~= seq![name]);
    assert(keep_parts(seq![name]) =~= seq![name]);
}

/// Components are compared whole: a directory is not under its own child, and
/// of two different entries of one directory neither lies under the other, so
/// `/srv/ab` is not under `/srv/a` though its text begins with it.
pub proof fn law_components_decide(parent: Seq<u8>, a: Seq<u8>, b: Seq<u8>)
    requires
        rooted(parent),
        named_component(a),
        named_component(b),
    ensures
        !component_prefix(parent, parent + seq![slash()] + a),
        a != b ==> !component_prefix(parent + seq![slash()] + a, parent + seq![slash()] + b),
{
    lemma_parts_of_child(parent, a);
    lemma_parts_of_child(parent, b);
    let pp = path_parts(parent);
    let pa = pp.push(a);
    let pb = pp.push(b);
    if a != b {
        assert(pa.take(pb.len() as int)[pp.len() as int] == a);
        assert(pb[pp.len() as int] == b);
    }
}

pub open spec fn byte_views(v: Seq<Vec<u8>>) -> Seq<Seq<u8>> {
    v.map_values(|b: Vec<u8>| b@)
}

/// Whether two byte strings are equal.
pub fn same_bytes(a: &Vec<u8>, b: &Vec<u8>) -> (r: bool)
    ensures
        r == (a@ == b@),
{
    if a.len() != b.len() {
        return false;
    }
    let mut i: usize = 0;
    while i < a.len()
        invariant
            0 <= i <= a@.len(),
            a@.len() == b@.len(),
            forall|j: int| 0 <= j < i ==> a@[j] == b@[j],
        decreases a@.len() - i,
    {
        if a[i] != b[i] {
            return false;
        }
        i = i + 1;
    }
    assert(a@ =~= b@);
    true
}

fn keep_part(done: &mut Vec<Vec<u8>>, part: Vec<u8>)
    ensures
        byte_views(final(done)@) == if part@.len() > 0 && part@ != seq![dot()] {
            byte_views(old(done)@).push(part@)
        } else {
            byte_views(old(done)@)
        },
{
    let is_dot = part.len() == 1 && part[0] == 46u8;
    assert(is_dot == (part@ == seq![dot()])) by {
        if part@.len() == 1 && part@[0] == dot() {
            assert(part@ =~= seq![dot()]);
        }
    }
    if part.len() > 0 && !is_dot {
        let ghost old_views = byte_views(done@);
        done.push(part);
        assert(byte_views(done@) =~= old_views.push(part@));
    }
}

/// The components of a byte path (see [`path_parts`]).
pub fn parts_of(s: &Vec<u8>) -> (r: Vec<Vec<u8>>)
    ensures
        byte_views(r@) == path_parts(s@),
{
    let ghost bs = s@;
    let ghost mut pieces: Seq<Seq<u8>> = Seq::empty();
    let mut r: Vec<Vec<u8>> = Vec::new();
    let mut cur: Vec<u8> = Vec::new();
    let mut i: usize = 0;
    assert(bs.take(0) =~= Seq::<u8>::empty());
    while i < s.len()
        invariant
            bs == s@,
            0 <= i <= bs.len(),
            split_on(bs.take(i as int), slash()) == pieces.push(cur@),
            byte_views(r@) == keep_parts(pieces),
        decreases bs.len() - i,
    {
        assert(bs.take(i + 1).drop_last() =~= bs.take(i as int));
        assert(bs.take(i + 1).last() == bs[i as int]);
        if s[i] == 47u8 {
            let part = cur;
            cur = Vec::new();
            let ghost p = part@;
            keep_part(&mut r, part);
            proof {
                assert(pieces.push(p).drop_last() =~= pieces);
                pieces = pieces.push(p);
                assert(cur@ =~= Seq::<u8>::empty());
            }
        } else {
            cur.push(s[i]);
        }
        i = i + 1;
    }
    assert(bs.take(bs.len() as int) =~= bs);
    let ghost p = cur@;
    keep_part(&mut r, cur);
    assert(pieces.push(p).drop_last() =~= pieces);
    r
}

/// Whether `base` is a component prefix of `path` (see [`component_prefix`]).
pub fn starts_with_components(path: &Vec<u8>, base: &Vec<u8>) -> (r: bool)
    ensures
        r == component_prefix(path@, base@),
{
    let rooted_path = path.len() > 0 && path[0] == 47u8;
    let rooted_base = base.len() > 0 && base[0] == 47u8;
    if rooted_path != rooted_base {
        return false;
    }
    let pp = parts_of(path);
    let bp = parts_of(base);
    if bp.len() > pp.len() {
        return false;
    }
    let ghost pv = byte_views(pp@);
    let ghost bv = byte_views(bp@);
    let mut i: usize = 0;
    assert(pv.len() == pp@.len() && bv.len() == bp@.len());
    while i < bp.len()
        invariant
            0 <= i <= bp@.len() <= pp@.len(),
            pv.len() == pp@.len(),
            bv.len() == bp@.len(),
            pv == path_parts(path@),
            bv == path_parts(base@),
            pv == byte_views(pp@),
            bv == byte_views(bp@),
            forall|j: int| 0 <= j < i ==> pv[j] == bv[j],
        decreases bp@.len() - i,
    {
        if !same_bytes(&pp[i], &bp[i]) {
            assert(pv[i as int] == pp@[i as int]@ && bv[i as int] == bp@[i as int]@);
            assert(pv.take(bv.len() as int)[i as int] != bv[i as int]);

            return false;
        }
        i = i + 1;
    }
    assert(pv.take(bv.len() as int) =~= bv);
    true
}

// ---------------------------------------------------------------------------
// Parsing the configured roots.
// ---------------------------------------------------------------------------

/// The non-empty pieces among `pieces`, in order.
pub open spec fn keep_nonempty(pieces: Seq<Seq<char>>) -> Seq<Seq<char>>
    decreases pieces.len(),
{
    if pieces.len() == 0 {
        Seq::empty()
    } else if pieces.last().len() > 0 {
        keep_nonempty(pieces.drop_last()).push(pieces.last())
    } else {
        keep_nonempty(pieces.drop_last())
    }
}

/// The roots named by a comma-separated list: each piece trimmed of
/// whitespace, the empty ones left out.
pub open spec fn parsed_paths(input: Seq<char>) -> Seq<Seq<char>> {
    keep_nonempty(split_on(input, ',').map_values(|p: Seq<char>| trimmed(p)))
}

proof fn lemma_keep_nonempty(pieces: Seq<Seq<char>>)
    ensures
        forall|i: int|
            0 <= i < keep_nonempty(pieces).len() ==> (#[trigger] keep_nonempty(pieces)[i]).len() > 0
                && exists|j: int| 0 <= j < pieces.len() && pieces[j] == keep_nonempty(pieces)[i],
    decreases pieces.len(),
{
    if pieces.len() > 0 {
        let prev = pieces.drop_last();
        lemma_keep_nonempty(prev);
        let k = keep_nonempty(pieces);
        assert forall|i: int| 0 <= i < k.len() implies (#[trigger] k[i]).len() > 0 && exists|j: int|
            0 <= j < pieces.len() && pieces[j] == k[i] by {
            if i < keep_nonempty(prev).len() {
                assert(k[i] == keep_nonempty(prev)[i]);
                let j = choose|j: int| 0 <= j < prev.len() && prev[j] == keep_nonempty(prev)[i];
                assert(pieces[j] == prev[j]);
            } else {
                assert(k[i] == pieces.last());
                assert(pieces[pieces.len() - 1] == k[i]);
            }
        }
    }
}

/// Configured roots are clean: every root read from a list is non-empty and
/// neither starts nor ends with whitespace.
pub proof fn law_parsed_roots_are_trimmed(input: Seq<char>)
    ensures
        forall|i: int|
            0 <= i < parsed_paths(input).len() ==> {
                let p = #[trigger] parsed_paths(input)[i];
                &&& p.len() > 0
                &&& !is_white_space(p[0])
                &&& !is_white_space(p.last())
            },
{
    let pieces = split_on(input, ',').map_values(|p: Seq<char>| trimmed(p));
    lemma_keep_nonempty(pieces);
    assert forall|i: int| 0 <= i < parsed_paths(input).len() implies {
        let p = #[trigger] parsed_paths(input)[i];
        &&& p.len() > 0
        &&& !is_white_space(p[0])
        &&& !is_white_space(p.last())
    } by {
        let p = parsed_paths(input)[i];
        let j = choose|j: int| 0 <= j < pieces.len() && pieces[j] == p;
        lemma_trimmed_edges(split_on(input, ',')[j]);
    }
}

proof fn lemma_keep_all_nonempty(pieces: Seq<Seq<char>>)
    requires
        forall|i: int| 0 <= i < pieces.len() ==> (#[trigger] pieces[i]).len() > 0,
    ensures
        keep_nonempty(pieces) == pieces,
    decreases pieces.len(),
{
    if pieces.len() > 0 {
        let prev = pieces.drop_last();
        assert forall|i: int| 0 <= i < prev.len() implies (#[trigger] prev[i]).len() > 0 by {
            assert(prev[i] == pieces[i]);
        }
        lemma_keep_all_nonempty(prev);
        assert(pieces[pieces.len() - 1] == pieces.last());
        assert(prev.push(pieces.last()) =~= pieces);
    }
}

/// A list of clean roots (non-empty, without commas, neither starting nor
/// ending with whitespace) written with commas between them reads back as
/// those roots, in order.
pub proof fn law_parse_reads_back_a_clean_list(roots: Seq<Seq<char>>)
    requires
        roots.len() > 0,
        forall|i: int|
            0 <= i < roots.len() ==> (#[trigger] roots[i]).len() > 0 && !is_white_space(roots[i][0])
                && !is_white_space(roots[i].last()),
        forall|i: int, j: int| 0 <= i < roots.len() && 0 <= j < roots[i].len() ==> roots[i][j] != ',',
    ensures
        parsed_paths(joined(roots, seq![','])) == roots,
{
    lemma_split_joined(roots, ',');
    let t = roots.map_values(|p: Seq<char>| trimmed(p));
    assert forall|i: int| 0 <= i < roots.len() implies #[trigger] t[i] == roots[i] by {
        let r = roots[i];
        assert(trim_start(r) == r);
        assert(trim_end(r) == r);
    }
    assert(t =~= roots);
    lemma_keep_all_nonempty(roots);
}

pub open spec fn views_of(v: Seq<String>) -> Seq<Seq<char>> {
    v.map_values(|s: String| s@)
}

/// Splits a comma-separated list of paths, trims each and drops the empty ones.
pub fn parse_paths(input: &str) -> (r: Vec<String>)
    ensures
        views_of(r@) == parsed_paths(input@),
{
    let chars = chars_of(input);
    let ghost cs = chars@;
    let ghost mut done: Seq<Seq<char>> = Seq::empty();
    let mut r: Vec<String> = Vec::new();
    let mut start: usize = 0;
    let mut i: usize = 0;
    assert(cs.take(0) =~= Seq::<char>::empty());
    while i < chars.len()
        invariant
            cs == chars@,
            cs == input@,
            0 <= start <= i <= cs.len(),
            split_on(cs.take(i as int), ',') == done.push(cs.subrange(start as int, i as int)),
            views_of(r@) == keep_nonempty(done.map_values(|p: Seq<char>| trimmed(p))),
        decreases cs.len() - i,
    {
        let ghost before = cs.take(i as int);
        assert(cs.take(i + 1).drop_last() =~= before);
        assert(cs.take(i + 1).last() == cs[i as int]);
        if chars[i] == ',' {
            let piece = trim_range(&chars, start, i);
            let ghost cur = cs.subrange(start as int, i as int);
            let ghost old_r = r@;
            if !piece.as_str().is_empty() {
                r.push(piece);
                assert(views_of(r@) =~= views_of(old_r).push(trimmed(cur)));
            }
            proof {
                let tr = done.map_values(|p: Seq<char>| trimmed(p));
                assert(done.push(cur).map_values(|p: Seq<char>| trimmed(p)) =~= tr.push(trimmed(cur)));
                assert(tr.push(trimmed(cur)).drop_last() =~= tr);
                done = done.push(cur);
                assert(cs.subrange(i + 1, i + 1) =~= Seq::<char>::empty());
            }
            start = i + 1;
        } else {
            assert(cs.subrange(start as int, i + 1) =~= cs.subrange(start as int, i as int).push(
                cs[i as int],
            ));
        }
        i = i + 1;
    }
    assert(cs.take(cs.len() as int) =~= cs);
    let piece = trim_range(&chars, start, chars.len());
    let ghost cur = cs.subrange(start as int, cs.len() as int);
    let ghost old_r = r@;
    if !piece.as_str().is_empty() {
        r.push(piece);
        assert(views_of(r@) =~= views_of(old_r).push(trimmed(cur)));
    }
    proof {
        let tr = done.map_values(|p: Seq<char>| trimmed(p));
        assert(done.push(cur).map_values(|p: Seq<char>| trimmed(p)) =~= tr.push(trimmed(cur)));
        assert(tr.push(trimmed(cur)).drop_last() =~= tr);
    }
    r
}

// ---------------------------------------------------------------------------
// The configuration and the access check.
// ---------------------------------------------------------------------------

/// Where the server may read and write: a base path and two lists of roots.
pub struct PathConfig {
    pub base_path: String,
    pub readable_roots: Vec<String>,
    pub writable_roots: Vec<String>,
}

/// The text of a setting, or `default` where the setting is absent.
pub open spec fn setting_or(v: Option<String>, default: Seq<char>) -> Seq<char> {
    match v {
        Some(s) => s@,
        None => default,
    }
}

/// The base path used when none is configured.
pub open spec fn default_base() -> Seq<char> {
    "/home/user"@
}

fn text_or(v: Option<String>, default: &str) -> (r: String)
    ensures
        r@ == setting_or(v, default@),
{
    match v {
        Some(s) => s,
        None => String::from_str(default),
    }
}

/// Whether `o` is an answer that canonicalizing `path` may have given: a
/// canonical-form path recorded for `path`, or a failure recorded for it.
pub open spec fn answer_for(path: Seq<char>, o: Result<Seq<u8>, Seq<char>>) -> bool {
    match o {
        Ok(c) => canonical_form(c) && canonical_of(path, c),
        Err(_) => unresolved(path),
    }
}

/// Whether `canon` holds, for each root in turn, an answer that
/// canonicalizing it may have given.
pub open spec fn answers_for(roots: Seq<Seq<char>>, canon: Seq<Result<Seq<u8>, Seq<char>>>) -> bool {
    &&& canon.len() == roots.len()
    &&& forall|j: int| 0 <= j < roots.len() ==> #[trigger] answer_for(roots[j], canon[j])
}

/// Whether the root scan for `target` reaches root `j`: every earlier root
/// canonicalized to a path that is no component prefix of `target`.
pub open spec fn reached(target: Seq<u8>, canon: Seq<Result<Seq<u8>, Seq<char>>>, j: int) -> bool {
    forall|k: int| 0 <= k < j ==> (#[trigger] canon[k] matches Ok(c) && !component_prefix(target, c))
}

/// Whether `canon` holds, for each root that the scan for `target` reaches,
/// an answer that canonicalizing that root may have given (the roots after
/// the one that decides are never asked).
pub open spec fn scan_answers(
    target: Seq<u8>,
    roots: Seq<Seq<char>>,
    canon: Seq<Result<Seq<u8>, Seq<char>>>,
) -> bool {
    &&& canon.len() == roots.len()
    &&& forall|j: int|
        0 <= j < roots.len() && reached(target, canon, j) ==> #[trigger] answer_for(roots[j], canon[j])
}

/// The verdict of the root scan for the canonical path `target`, starting at
/// root `i`: the first root whose canonical form could not be had gives an
/// error, the first whose canonical form is a component prefix of `target`
/// gives `Ok(true)`, and `Ok(false)` when no root does.
pub open spec fn roots_verdict(
    target: Seq<u8>,
    roots: Seq<Seq<char>>,
    canon: Seq<Result<Seq<u8>, Seq<char>>>,
    i: int,
) -> Result<bool, Seq<char>>
    decreases roots.len() - i,
{
    if i < 0 || i >= roots.len() {
        Ok(false)
    } else {
        match canon[i] {
            Err(e) => Err("failed to canonicalize root "@ + roots[i] + ": "@ + e),
            Ok(c) => if component_prefix(target, c) {
                Ok(true)
            } else {
                roots_verdict(target, roots, canon, i + 1)
            },
        }
    }
}

/// The verdict on a path whose parent canonicalized to `parent_canon`, for
/// the given canonicalization answers of the roots.
pub open spec fn access_verdict(
    parent_canon: Result<Seq<u8>, Seq<char>>,
    roots: Seq<Seq<char>>,
    canon: Seq<Result<Seq<u8>, Seq<char>>>,
) -> Result<bool, Seq<char>> {
    match parent_canon {
        Err(e) => Err("failed to canonicalize parent: "@ + e),
        Ok(p) => roots_verdict(p, roots, canon, 0),
    }
}

pub open spec fn verdict_view(r: Result<bool, String>) -> Result<bool, Seq<char>> {
    match r {
        Ok(b) => Ok(b),
        Err(e) => Err(e@),
    }
}

/// What the root scan may answer for the canonical path `target`: the verdict
/// for answers given on canonicalizing the roots that it reaches.
pub open spec fn scan_outcome(target: Seq<u8>, roots: Seq<Seq<char>>, r: Result<bool, Seq<char>>) -> bool {
    exists|canon: Seq<Result<Seq<u8>, Seq<char>>>|
        scan_answers(target, roots, canon) && r == #[trigger] roots_verdict(target, roots, canon, 0)
}

/// What the access check may answer for `path` under `roots`: the refusal of
/// a path without a parent, or the verdict for an answer given on
/// canonicalizing its parent and answers given on canonicalizing the roots
/// that the scan reaches.
pub open spec fn access_outcome(
    path: Seq<char>,
    roots: Seq<Seq<char>>,
    r: Result<bool, Seq<char>>,
) -> bool {
    match parent_of(path) {
        None => r == Err::<bool, Seq<char>>("path must have a parent directory"@),
        Some(q) => exists|pc: Result<Seq<u8>, Seq<char>>, canon: Seq<Result<Seq<u8>, Seq<char>>>|
            answer_for(q, pc) && (pc matches Ok(p) ==> scan_answers(p, roots, canon)) && canon.len()
                == roots.len() && r == #[trigger] access_verdict(pc, roots, canon),
    }
}

/// The verdict on the file itself: where the path resolves to the canonical
/// path `c`, the root scan for `c`; where it does not resolve, it is allowed
/// unless it is a symbolic link (one that points nowhere).
pub open spec fn target_verdict(
    resolved: Result<Seq<u8>, Seq<char>>,
    is_link: bool,
    roots: Seq<Seq<char>>,
    canon: Seq<Result<Seq<u8>, Seq<char>>>,
) -> Result<bool, Seq<char>> {
    match resolved {
        Ok(c) => roots_verdict(c, roots, canon, 0),
        Err(_) => Ok(!is_link),
    }
}

/// What the check on the file itself may answer for `path` under `roots`: the
/// verdict for an answer given on canonicalizing `path`, where that failed an
/// answer given on asking whether `path` is a link, and where it resolved
/// answers given on canonicalizing the roots that the scan reaches.
pub open spec fn target_outcome(
    path: Seq<char>,
    roots: Seq<Seq<char>>,
    r: Result<bool, Seq<char>>,
) -> bool {
    exists|resolved: Result<Seq<u8>, Seq<char>>, is_link: bool, canon: Seq<Result<Seq<u8>, Seq<char>>>|
        answer_for(path, resolved) && match resolved {
            Ok(c) => scan_answers(c, roots, canon),
            Err(_) => link_seen(path, is_link),
        } && canon.len() == roots.len() && r == #[trigger] target_verdict(resolved, is_link, roots, canon)
}

proof fn lemma_verdict_skips_misses(
    target: Seq<u8>,
    roots: Seq<Seq<char>>,
    canon: Seq<Result<Seq<u8>, Seq<char>>>,
    i: int,
)
    requires
        0 <= i <= roots.len(),
        forall|j: int|
            0 <= j < i ==> (#[trigger] canon[j] matches Ok(c) && !component_prefix(target, c)),
    ensures
        roots_verdict(target, roots, canon, 0) == roots_verdict(target, roots, canon, i),
    decreases i,
{
    if i > 0 {
        lemma_verdict_skips_misses(target, roots, canon, i - 1);
        assert(canon[i - 1] matches Ok(c) && !component_prefix(target, c));
    }
}

/// Whether some root has a recorded canonical form (see [`canonical_of`]) that
/// is a component prefix of the canonical path `c`.
pub open spec fn under_some_root(c: Seq<u8>, roots: Seq<Seq<char>>) -> bool {
    exists|j: int, r: Seq<u8>|
        0 <= j < roots.len() && #[trigger] canonical_of(roots[j], r) && canonical_form(r) && component_prefix(c, r)
}

/// Whether the parent of `path` has a recorded canonical form that lies under
/// some root (see [`under_some_root`]).
pub open spec fn parent_within(path: Seq<char>, roots: Seq<Seq<char>>) -> bool {
    match parent_of(path) {
        Some(q) => exists|p: Seq<u8>| #[trigger] canonical_of(q, p) && canonical_form(p) && under_some_root(p, roots),
        None => false,
    }
}

/// Whether `path` itself has a recorded canonical form that lies under some
/// root, or failed to resolve and was seen not to be a symbolic link.
pub open spec fn file_within(path: Seq<char>, roots: Seq<Seq<char>>) -> bool {
    ||| exists|c: Seq<u8>| #[trigger] canonical_of(path, c) && canonical_form(c) && under_some_root(c, roots)
    ||| unresolved(path) && link_seen(path, false)
}

proof fn lemma_verdict_allows_under_a_root(
    target: Seq<u8>,
    roots: Seq<Seq<char>>,
    canon: Seq<Result<Seq<u8>, Seq<char>>>,
    i: int,
)
    requires
        scan_answers(target, roots, canon),
        0 <= i,
        reached(target, canon, i),
        roots_verdict(target, roots, canon, i) == Ok::<bool, Seq<char>>(true),
    ensures
        under_some_root(target, roots),
    decreases roots.len() - i,
{
    if i < roots.len() {
        assert(answer_for(roots[i], canon[i]));
        if let Ok(c) = canon[i] {
            if component_prefix(target, c) {
                assert(canonical_of(roots[i], c));
            } else {
                assert(reached(target, canon, i + 1)) by {
                    assert forall|k: int| 0 <= k < i + 1 implies (#[trigger] canon[k] matches Ok(d)
                        && !component_prefix(target, d)) by {
                        if k < i {
                            assert(canon[k] matches Ok(d) && !component_prefix(target, d));
                        }
                    }
                }
                lemma_verdict_allows_under_a_root(target, roots, canon, i + 1);
            }
        }
    }
}

/// Reads and writes are confined to the roots: where the access check allows
/// `path`, its parent has a recorded canonical form (absolute, free of `.` and
/// `..`) with a recorded canonical form of some root as a component prefix;
/// where the check on the file itself allows it, the same holds of the file's
/// own canonical form, or the file did not resolve and is no symbolic link.
/// Only canonical forms are compared, so `<root>/../x` is never let through by
/// the text of its components.
pub proof fn law_allowed_paths_lie_under_a_root(path: Seq<char>, roots: Seq<Seq<char>>)
    ensures
        access_outcome(path, roots, Ok(true)) ==> parent_within(path, roots),
        target_outcome(path, roots, Ok(true)) ==> file_within(path, roots),
{
    reveal_strlit("path must have a parent directory");
    if access_outcome(path, roots, Ok(true)) {
        if let Some(q) = parent_of(path) {
            let (pc, canon) = choose|pc: Result<Seq<u8>, Seq<char>>, canon: Seq<Result<Seq<u8>, Seq<char>>>|
                answer_for(q, pc) && (pc matches Ok(p) ==> scan_answers(p, roots, canon)) && canon.len()
                    == roots.len() && Ok::<bool, Seq<char>>(true) == #[trigger] access_verdict(pc, roots, canon);
            let p = pc->Ok_0;
            lemma_verdict_allows_under_a_root(p, roots, canon, 0);
            assert(canonical_of(q, p));
        } else {
            assert("path must have a parent directory"@.len() > 0);
        }
    }
    if target_outcome(path, roots, Ok(true)) {
        let (resolved, is_link, canon) = choose|
            resolved: Result<Seq<u8>, Seq<char>>,
            is_link: bool,
            canon: Seq<Result<Seq<u8>, Seq<char>>>,
        |
            answer_for(path, resolved) && match resolved {
                Ok(c) => scan_answers(c, roots, canon),
                Err(_) => link_seen(path, is_link),
            } && canon.len() == roots.len() && Ok::<bool, Seq<char>>(true) == #[trigger] target_verdict(
                resolved,
                is_link,
                roots,
                canon,
            );
        if let Ok(c) = resolved {
            lemma_verdict_allows_under_a_root(c, roots, canon, 0);
            assert(canonical_of(path, c));
        }
    }
}

/// Whether every answer recorded for `path` is the canonical path `c`, and no
/// failure is.
pub open spec fn resolves_only_to(path: Seq<char>, c: Seq<u8>) -> bool {
    &&& !unresolved(path)
    &&& forall|d: Seq<u8>| #[trigger] canonical_of(path, d) ==> d == c
}

/// Whether `root` resolves, and every canonical form recorded for it is no
/// component prefix of `target`.
pub open spec fn misses(root: Seq<char>, target: Seq<u8>) -> bool {
    &&& !unresolved(root)
    &&& forall|d: Seq<u8>| #[trigger] canonical_of(root, d) ==> !component_prefix(target, d)
}

/// Whether `root` resolves, and every canonical form recorded for it is a
/// component prefix of `target`.
pub open spec fn holds(root: Seq<char>, target: Seq<u8>) -> bool {
    &&& !unresolved(root)
    &&& forall|d: Seq<u8>| #[trigger] canonical_of(root, d) ==> component_prefix(target, d)
}

/// Whether no canonical form is recorded for `root`.
pub open spec fn never_resolves(root: Seq<char>) -> bool {
    forall|d: Seq<u8>| !#[trigger] canonical_of(root, d)
}

proof fn lemma_scan_reaches(
    target: Seq<u8>,
    roots: Seq<Seq<char>>,
    canon: Seq<Result<Seq<u8>, Seq<char>>>,
    j: int,
)
    requires
        scan_answers(target, roots, canon),
        0 <= j <= roots.len(),
        forall|k: int| 0 <= k < j ==> #[trigger] misses(roots[k], target),
    ensures
        reached(target, canon, j),
    decreases j,
{
    if j > 0 {
        lemma_scan_reaches(target, roots, canon, j - 1);
        assert(answer_for(roots[j - 1], canon[j - 1]));
        assert(misses(roots[j - 1], target));
        assert forall|k: int| 0 <= k < j implies (#[trigger] canon[k] matches Ok(d) && !component_prefix(
            target,
            d,
        )) by {
            if k < j - 1 {
                assert(canon[k] matches Ok(d) && !component_prefix(target, d));
            }
        }
    }
}

/// The roots are tried in order, and the first one that decides wins: for a
/// path whose parent resolves only to `target`, when every root before `j`
/// resolves to no prefix of it, a root `j` that never resolves makes the whole
/// check fail with an error naming that root, whatever the later roots are; a
/// root `j` that resolves to a prefix of it allows the path, whatever the later
/// roots are; and when every root misses, the path is refused (`Ok(false)`).
pub proof fn law_access_tries_roots_in_order(
    path: Seq<char>,
    roots: Seq<Seq<char>>,
    r: Result<bool, Seq<char>>,
    target: Seq<u8>,
    j: int,
)
    requires
        access_outcome(path, roots, r),
        parent_of(path) matches Some(q) && resolves_only_to(q, target),
        0 <= j <= roots.len(),
        forall|k: int| 0 <= k < j ==> #[trigger] misses(roots[k], target),
    ensures
        j < roots.len() && never_resolves(roots[j]) ==> exists|e: Seq<char>|
            r == Err::<bool, Seq<char>>(#[trigger] ("failed to canonicalize root "@ + roots[j] + ": "@ + e)),
        j < roots.len() && holds(roots[j], target) ==> r == Ok::<bool, Seq<char>>(true),
        j == roots.len() ==> r == Ok::<bool, Seq<char>>(false),
{
    let q = parent_of(path)->0;
    let (pc, canon) = choose|pc: Result<Seq<u8>, Seq<char>>, canon: Seq<Result<Seq<u8>, Seq<char>>>|
        answer_for(q, pc) && (pc matches Ok(p) ==> scan_answers(p, roots, canon)) && canon.len() == roots.len()
            && r == #[trigger] access_verdict(pc, roots, canon);
    let p = pc->Ok_0;
    assert(canonical_of(q, p));
    assert(p == target);
    lemma_scan_reaches(target, roots, canon, j);
    lemma_verdict_skips_misses(target, roots, canon, j);
    if j < roots.len() {
        assert(answer_for(roots[j], canon[j]));
        if never_resolves(roots[j]) {
            if let Ok(d) = canon[j] {
                assert(canonical_of(roots[j], d));
            }
        }
        if holds(roots[j], target) {
            if let Ok(d) = canon[j] {
                assert(canonical_of(roots[j], d));
            }
        }
    }
}

/// The roots are tried in order and the first one that decides wins, for any
/// answers of the disk: when every root before `j` canonicalized to a path
/// that is no component prefix of `target`, a root `j` that failed to
/// canonicalize makes the whole scan fail with its error, and a root `j` whose
/// canonical form is a component prefix of `target` allows it, whatever the
/// later roots are; when every root misses, the answer is `Ok(false)`.
pub proof fn law_roots_tried_in_order(
    target: Seq<u8>,
    roots: Seq<Seq<char>>,
    canon: Seq<Result<Seq<u8>, Seq<char>>>,
    j: int,
)
    requires
        canon.len() == roots.len(),
        0 <= j <= roots.len(),
        forall|k: int| 0 <= k < j ==> (#[trigger] canon[k] matches Ok(c) && !component_prefix(target, c)),
    ensures
        j < roots.len() ==> (canon[j] matches Err(e) ==> roots_verdict(target, roots, canon, 0) == Err::<
            bool,
            Seq<char>,
        >("failed to canonicalize root "@ + roots[j] + ": "@ + e)),
        j < roots.len() ==> (canon[j] matches Ok(c) && component_prefix(target, c) ==> roots_verdict(
            target,
            roots,
            canon,
            0,
        ) == Ok::<bool, Seq<char>>(true)),
        j == roots.len() ==> roots_verdict(target, roots, canon, 0) == Ok::<bool, Seq<char>>(false),
{
    lemma_verdict_skips_misses(target, roots, canon, j);
}

pub open spec fn outcome_of(r: Result<String, String>) -> Result<Seq<char>, Seq<char>> {
    match r {
        Ok(c) => Ok(c@),
        Err(e) => Err(e@),
    }
}

pub open spec fn path_outcome(r: Result<Vec<u8>, String>) -> Result<Seq<u8>, Seq<char>> {
    match r {
        Ok(c) => Ok(c@),
        Err(e) => Err(e@),
    }
}

/// One step of the root scan, for a root whose canonicalization gave
/// `canonical_root`: an error ends the scan with a message naming the root,
/// a canonical root that is a component prefix of `target` ends it with
/// `Ok(true)`, and any other root lets the scan go on (`None`).
pub fn check_root(target: &Vec<u8>, root: &str, canonical_root: Result<Vec<u8>, String>) -> (r: Option<
    Result<bool, String>,
>)
    ensures
        match path_outcome(canonical_root) {
            Err(e) => r matches Some(v) && verdict_view(v) == Err::<bool, Seq<char>>(
                "failed to canonicalize root "@ + root@ + ": "@ + e,
            ),
            Ok(c) => if component_prefix(target@, c) {
                r == Some(Ok::<bool, String>(true))
            } else {
                r is None
            },
        },
{
    match canonical_root {
        Err(e) => {
            let mut m = String::from_str("failed to canonicalize root ");
            m.append(root);
            m.append(": ");
            m.append(e.as_str());
            Some(Err(m))
        },
        Ok(c) => {
            if starts_with_components(target, &c) {
                Some(Ok(true))
            } else {
                None
            }
        },
    }
}

/// The root scan for the canonical path `target`: each root is canonicalized
/// in turn, and [`check_root`] decides.
pub fn scan_roots(target: &Vec<u8>, roots: &Vec<String>) -> (r: Result<bool, String>)
    ensures
        scan_outcome(target@, views_of(roots@), verdict_view(r)),
{
    let ghost rs = views_of(roots@);
    let ghost mut canon: Seq<Result<Seq<u8>, Seq<char>>> = Seq::new(
        roots@.len(),
        |j: int| Err::<Seq<u8>, Seq<char>>(Seq::empty()),
    );
    let mut i: usize = 0;
    while i < roots.len()
        invariant
            0 <= i <= roots@.len(),
            rs == views_of(roots@),
            canon.len() == roots@.len(),
            forall|j: int| 0 <= j < i ==> #[trigger] answer_for(rs[j], canon[j]),
            forall|j: int|
                0 <= j < i ==> (#[trigger] canon[j] matches Ok(c) && !component_prefix(target@, c)),
        decreases roots@.len() - i,
    {
        let root = &roots[i];
        let outcome = canonical_path(root.as_str());
        let ghost outcome_view = path_outcome(outcome);
        proof {
            canon = canon.update(i as int, outcome_view);
            assert(rs[i as int] == root@);
            assert(answer_for(rs[i as int], canon[i as int]));
        }
        match check_root(target, root.as_str(), outcome) {
            Some(r) => {
                proof {
                    lemma_verdict_skips_misses(target@, rs, canon, i as int);
                    assert(verdict_view(r) == roots_verdict(target@, rs, canon, 0));
                    assert forall|j: int|
                        0 <= j < rs.len() && reached(target@, canon, j) implies #[trigger] answer_for(
                        rs[j],
                        canon[j],
                    ) by {
                        if j > i {
                            assert(!(canon[i as int] matches Ok(c) && !component_prefix(target@, c)));
                        }
                    }
                    assert(scan_answers(target@, rs, canon));
                }
                return r;
            },
            None => {},
        }
        i = i + 1;
    }
    proof {
        lemma_verdict_skips_misses(target@, rs, canon, roots@.len() as int);
        assert(verdict_view(Ok(false)) == roots_verdict(target@, rs, canon, 0));
        assert(scan_answers(target@, rs, canon));
    }
    Ok(false)
}

/// The check on the file itself: where `path` resolves, its canonical form
/// must lie under one of the roots; where it does not resolve, it must not be
/// a symbolic link (whose target, once written, could lie anywhere).
pub fn target_within(path: &str, roots: &Vec<String>) -> (r: Result<bool, String>)
    ensures
        target_outcome(path@, views_of(roots@), verdict_view(r)),
{
    match canonical_path(path) {
        Ok(c) => {
            let r = scan_roots(&c, roots);
            proof {
                let canon = choose|canon: Seq<Result<Seq<u8>, Seq<char>>>|
                    scan_answers(c@, views_of(roots@), canon) && verdict_view(r)
                        == #[trigger] roots_verdict(c@, views_of(roots@), canon, 0);
                assert(verdict_view(r) == target_verdict(Ok(c@), false, views_of(roots@), canon));
            }
            r
        },
        Err(e) => {
            let is_link = path_is_symlink(path);
            proof {
                let canon = Seq::new(roots@.len(), |j: int| Err::<Seq<u8>, Seq<char>>(Seq::empty()));
                assert(verdict_view(Ok(!is_link)) == target_verdict(
                    Err(e@),
                    is_link,
                    views_of(roots@),
                    canon,
                ));
            }
            Ok(!is_link)
        },
    }
}

/// Every refusal that the access check can give starts with the letter `p`
/// or `f` ("path must ...", "failed to canonicalize ...").
pub proof fn lemma_access_errors_start(path: Seq<char>, roots: Seq<Seq<char>>, r: Result<bool, Seq<char>>)
    requires
        access_outcome(path, roots, r),
    ensures
        r matches Err(m) ==> m.len() > 0 && (m[0] == 'p' || m[0] == 'f'),
{
    reveal_strlit("path must have a parent directory");
    reveal_strlit("failed to canonicalize parent: ");
    if parent_of(path) is Some {
        let q = parent_of(path)->0;
        let (pc, canon) = choose|pc: Result<Seq<u8>, Seq<char>>, canon: Seq<Result<Seq<u8>, Seq<char>>>|
            answer_for(q, pc) && (pc matches Ok(p) ==> scan_answers(p, roots, canon)) && canon.len()
                == roots.len() && r == #[trigger] access_verdict(pc, roots, canon);
        if let Ok(p) = pc {
            lemma_roots_verdict_errors_start(p, roots, canon, 0);
        }
    }
}

/// Every refusal that the check on the file itself can give starts with `f`
/// ("failed to canonicalize root ...").
pub proof fn lemma_target_errors_start(path: Seq<char>, roots: Seq<Seq<char>>, r: Result<bool, Seq<char>>)
    requires
        target_outcome(path, roots, r),
    ensures
        r matches Err(m) ==> m.len() > 0 && m[0] == 'f',
{
    let (resolved, is_link, canon) = choose|
        resolved: Result<Seq<u8>, Seq<char>>,
        is_link: bool,
        canon: Seq<Result<Seq<u8>, Seq<char>>>,
    |
        answer_for(path, resolved) && match resolved {
            Ok(c) => scan_answers(c, roots, canon),
            Err(_) => link_seen(path, is_link),
        } && canon.len() == roots.len() && r == #[trigger] target_verdict(resolved, is_link, roots, canon);
    if let Ok(c) = resolved {
        lemma_roots_verdict_errors_start(c, roots, canon, 0);
    }
}

proof fn lemma_roots_verdict_errors_start(
    target: Seq<u8>,
    roots: Seq<Seq<char>>,
    canon: Seq<Result<Seq<u8>, Seq<char>>>,
    i: int,
)
    ensures
        roots_verdict(target, roots, canon, i) matches Err(m) ==> m.len() > 0 && m[0] == 'f',
    decreases roots.len() - i,
{
    reveal_strlit("failed to canonicalize root ");
    if 0 <= i < roots.len() {
        lemma_roots_verdict_errors_start(target, roots, canon, i + 1);
    }
}

impl PathConfig {
    /// The configuration from its three settings (base path, readable roots,
    /// writable roots), each possibly absent: the base path defaults to
    /// `/home/user`, the readable roots to `<base>/readable` and the writable
    /// roots to `<base>/writable`; root lists are read by [`parse_paths`].
    pub fn from_settings(
        base: Option<String>,
        readable: Option<String>,
        writable: Option<String>,
    ) -> (r: PathConfig)
        ensures
            r.base_path@ == setting_or(base, default_base()),
            views_of(r.readable_roots@) == parsed_paths(
                setting_or(readable, setting_or(base, default_base()) + "/readable"@),
            ),
            views_of(r.writable_roots@) == parsed_paths(
                setting_or(writable, setting_or(base, default_base()) + "/writable"@),
            ),
    {
        let base_path = text_or(base, "/home/user");
        let mut readable_default = base_path.clone();
        readable_default.append("/readable");
        let mut writable_default = base_path.clone();
        writable_default.append("/writable");
        let readable_text = match readable {
            Some(s) => s,
            None => readable_default,
        };
        let writable_text = match writable {
            Some(s) => s,
            None => writable_default,
        };
        let readable_roots = parse_paths(readable_text.as_str());
        let writable_roots = parse_paths(writable_text.as_str());
        PathConfig { base_path, readable_roots, writable_roots }
    }

    /// Whether `path` may be read: its parent, canonicalized, lies under one
    /// of the canonicalized readable roots.
    pub fn is_readable(&self, path: &str) -> (r: Result<bool, String>)
        ensures
            access_outcome(path@, views_of(self.readable_roots@), verdict_view(r)),
    {
        self.is_allowed(path, &self.readable_roots)
    }

    /// Whether `path` may be written: its parent, canonicalized, lies under
    /// one of the canonicalized writable roots.
    pub fn is_writable(&self, path: &str) -> (r: Result<bool, String>)
        ensures
            access_outcome(path@, views_of(self.writable_roots@), verdict_view(r)),
    {
        self.is_allowed(path, &self.writable_roots)
    }

    /// The access check: the parent of `path` is canonicalized, then each root
    /// in turn; the first root that fails to canonicalize is an error, the
    /// first that is a component prefix of the canonical parent allows the path.
    pub fn is_allowed(&self, path: &str, roots: &Vec<String>) -> (r: Result<bool, String>)
        ensures
            access_outcome(path@, views_of(roots@), verdict_view(r)),
    {
        let parent = match path_parent(path) {
            Some(p) => p,
            None => {
                return Err(String::from_str("path must have a parent directory"));
            },
        };
        match canonical_path(parent.as_str()) {
            Ok(c) => {
                let r = scan_roots(&c, roots);
                proof {
                    let canon = choose|canon: Seq<Result<Seq<u8>, Seq<char>>>|
                        scan_answers(c@, views_of(roots@), canon) && verdict_view(r)
                            == #[trigger] roots_verdict(c@, views_of(roots@), canon, 0);
                    assert(verdict_view(r) == access_verdict(Ok(c@), views_of(roots@), canon));
                }
                r
            },
            Err(e) => {
                let mut m = String::from_str("failed to canonicalize parent: ");
                m.append(e.as_str());
                proof {
                    let canon = Seq::new(roots@.len(), |j: int| Err::<Seq<u8>, Seq<char>>(Seq::empty()));
                    assert(verdict_view(Err(m)) == access_verdict(Err(e@), views_of(roots@), canon));
                }
                Err(m)
            },
        }
    }
}

} // verus!
