//! Rules on file names and paths: directory-name sanitising, archive
//! detection and the resolution of an artifact's destination.
use vstd::prelude::*;

verus! {

/// Characters that cannot stand in a directory name on common file systems.
pub open spec fn is_unsafe_name_char(c: char) -> bool {
    c == '<' || c == '>' || c == ':' || c == '"' || c == '/' || c == '\\' || c == '|'
        || c == '?' || c == '*'
}

/// The name with every unsafe character replaced by an underscore.
pub open spec fn sanitized(s: Seq<char>) -> Seq<char> {
    s.map_values(|c: char| if is_unsafe_name_char(c) { '_' } else { c })
}

fn is_unsafe_char(c: char) -> (r: bool)
    ensures
        r == is_unsafe_name_char(c),
{
    c == '<' || c == '>' || c == ':' || c == '"' || c == '/' || c == '\\' || c == '|' || c == '?'
        || c == '*'
}

/// Makes a display name usable as a directory name: each of `< > : " / \ | ? *`
/// becomes `_`, every other character is kept.
pub fn sanitize_filename(name: &str) -> (r: String)
    ensures
        r@ == sanitized(name@),
{
    let n = name.unicode_len();
    let mut out = String::new();
    let mut i: usize = 0;
    proof {
        reveal_strlit("_");
        assert(sanitized(name@.take(0)) =~= Seq::<char>::empty());
    }
    while i < n
        invariant
            n == name@.len(),
            i <= n,
            out@ == sanitized(name@.take(i as int)),
        decreases n - i,
    {
        let c = name.get_char(i);
        if is_unsafe_char(c) {
            out.append("_");
        } else {
            out.append(name.substring_char(i, i + 1));
        }
        proof {
            reveal_strlit("_");
            assert(name@.take(i + 1) =~= name@.take(i as int).push(c));
            assert(sanitized(name@.take(i + 1)) =~= sanitized(name@.take(i as int)).push(
                if is_unsafe_name_char(c) { '_' } else { c },
            ));
        }
        i = i + 1;
    }
    proof {
        assert(name@.take(n as int) =~= name@);
    }
    out
}

/// What `Path::extension` yields for a path: the part of its file name after
/// the last dot, if any.
pub uninterp spec fn extension_of(p: Seq<char>) -> Option<Seq<char>>;

/// What `str::to_lowercase` yields for a text.
pub uninterp spec fn lower_of(s: Seq<char>) -> Seq<char>;

/// Relies on std's `Path::extension`: the result depends on the path text alone.
#[verifier::external_body]
fn path_extension(p: &str) -> (r: Option<String>)
    ensures
        match r {
            Some(e) => extension_of(p@) == Some(e@),
            None => extension_of(p@) is None,
        },
{
    std::path::Path::new(p).extension().map(|e| e.to_string_lossy().into_owned())
}

/// Relies on std's `str::to_lowercase`: the result depends on the characters alone.
#[verifier::external_body]
fn lowercase(s: &str) -> (r: String)
    ensures
        r@ == lower_of(s@),
{
    s.to_lowercase()
}

/// Lower-cased extensions of the archive formats a manifest may come in.
pub open spec fn is_archive_ext(lowered: Seq<char>) -> bool {
    lowered == "zip"@ || lowered == "mrpack"@
}

/// Whether a lower-cased extension names an archive format (`zip`, `mrpack`).
pub fn is_archive_extension(lowered: &str) -> (r: bool)
    ensures
        r == is_archive_ext(lowered@),
{
    let l = String::from_str(lowered);
    let zip = String::from_str("zip");
    let mrpack = String::from_str("mrpack");
    l == zip || l == mrpack
}

/// Whether a path names an archive: its extension, lower-cased, is `zip` or
/// `mrpack`. A path without extension is no archive.
pub fn is_archive_file(path: &str) -> (r: bool)
    ensures
        r == match extension_of(path@) {
            Some(e) => is_archive_ext(lower_of(e)),
            None => false,
        },
{
    match path_extension(path) {
        Some(e) => {
            let lowered = lowercase(e.as_str());
            is_archive_extension(lowered.as_str())
        },
        None => false,
    }
}

/// Path separators: both the Unix and the Windows one count, so that a
/// manifest written on either system is judged the same way.
pub open spec fn is_separator(c: char) -> bool {
    c == '/' || c == '\\'
}

/// The components of a path text, split at every separator; empty
/// components (from doubled or trailing separators) are kept.
pub open spec fn components(s: Seq<char>) -> Seq<Seq<char>>
    decreases s.len(),
{
    if s.len() == 0 {
        seq![Seq::<char>::empty()]
    } else {
        let rest = components(s.drop_last());
        if is_separator(s.last()) {
            rest.push(Seq::<char>::empty())
        } else {
            rest.update(rest.len() - 1, rest.last().push(s.last()))
        }
    }
}

/// How a component moves the current depth below the root: `..` goes up,
/// `.` and the empty component stay, any other name goes down.
pub open spec fn depth_step(c: Seq<char>) -> int {
    if c == seq!['.', '.'] {
        -1
    } else if c.len() == 0 || c == seq!['.'] {
        0
    } else {
        1
    }
}

/// Depth below the root after walking the given components.
pub open spec fn depth_of(cs: Seq<Seq<char>>) -> int
    decreases cs.len(),
{
    if cs.len() == 0 {
        0
    } else {
        depth_of(cs.drop_last()) + depth_step(cs.last())
    }
}

/// No prefix of the walk climbs above the root.
pub open spec fn never_above_root(cs: Seq<Seq<char>>) -> bool
    decreases cs.len(),
{
    cs.len() == 0 || (never_above_root(cs.drop_last()) && depth_of(cs) >= 0)
}

/// A relative path stays inside the directory it is joined to: it does not
/// start at a separator, and no `..` ever leads above the starting point.
pub open spec fn stays_within_root(p: Seq<char>) -> bool {
    !(p.len() > 0 && is_separator(p[0])) && never_above_root(components(p))
}

fn is_separator_char(c: char) -> (r: bool)
    ensures
        r == is_separator(c),
{
    c == '/' || c == '\\'
}

/// Whether `relative`, joined to any directory, names a place inside it.
/// Paths such as `../../etc/passwd`, `a/../../b` or `/etc/passwd` do not;
/// `mods/./a.jar` and `a/../b.jar` do.
pub fn stays_within(relative: &str) -> (r: bool)
    ensures
        r == stays_within_root(relative@),
{
    let n = relative.unicode_len();
    if n > 0 && is_separator_char(relative.get_char(0)) {
        return false;
    }
    let ghost p = relative@;
    let mut ok = true;
    let mut depth: usize = 0;
    let mut cur_len: usize = 0;
    let mut cur_dots = true;
    let mut i: usize = 0;
    proof {
        assert(p.take(0) =~= Seq::<char>::empty());
    }
    while i < n
        invariant
            n == p.len(),
            p == relative@,
            i <= n,
            components(p.take(i as int)).len() >= 1,
            cur_len == components(p.take(i as int)).last().len(),
            cur_len <= i,
            cur_dots == (forall|k: int|
                0 <= k < cur_len ==> components(p.take(i as int)).last()[k] == '.'),
            ok == never_above_root(components(p.take(i as int)).drop_last()),
            ok ==> depth == depth_of(components(p.take(i as int)).drop_last()),
            depth <= i,
        decreases n - i,
    {
        let c = relative.get_char(i);
        let ghost cs = components(p.take(i as int));
        proof {
            assert(p.take(i + 1).drop_last() =~= p.take(i as int));
            assert(p.take(i + 1).last() == c);
        }
        if is_separator_char(c) {
            proof {
                let cs2 = components(p.take(i + 1));
                assert(cs2 == cs.push(Seq::<char>::empty()));
                assert(cs2.drop_last() =~= cs);
                lemma_step_of_counts(cs.last(), cur_len, cur_dots);
            }
            if ok {
                if cur_len == 2 && cur_dots {
                    if depth == 0 {
                        ok = false;
                    } else {
                        depth = depth - 1;
                    }
                } else if cur_len == 0 || (cur_len == 1 && cur_dots) {
                } else {
                    depth = depth + 1;
                }
            }
            cur_len = 0;
            cur_dots = true;
        } else {
            proof {
                let cs2 = components(p.take(i + 1));
                assert(cs2 == cs.update(cs.len() - 1, cs.last().push(c)));
                assert(cs2.drop_last() =~= cs.drop_last());
                assert(cs2.last() == cs.last().push(c));
                let l2 = cs.last().push(c);
                if !cur_dots {
                    let k = choose|k: int| 0 <= k < cur_len && cs.last()[k] != '.';
                    assert(l2[k] != '.');
                } else if c != '.' {
                    assert(l2[cur_len as int] != '.');
                } else {
                    assert forall|k: int| 0 <= k < cur_len + 1 implies l2[k] == '.' by {
                        if k < cur_len {
                            assert(l2[k] == cs.last()[k]);
                        }
                    }
                }
            }
            cur_len = cur_len + 1;
            cur_dots = cur_dots && c == '.';
        }
        i = i + 1;
    }
    proof {
        assert(p.take(n as int) =~= p);
        lemma_step_of_counts(components(p).last(), cur_len, cur_dots);
    }
    if !ok {
        false
    } else if cur_len == 2 && cur_dots {
        depth > 0
    } else {
        true
    }
}

proof fn lemma_step_of_counts(c: Seq<char>, len: usize, dots: bool)
    requires
        len == c.len(),
        dots == (forall|k: int| 0 <= k < len ==> c[k] == '.'),
    ensures
        (c == seq!['.', '.']) == (len == 2 && dots),
        (c.len() == 0 || c == seq!['.']) == (len == 0 || (len == 1 && dots)),
{
    if len == 2 && dots {
        assert(c =~= seq!['.', '.']);
    }
    if len == 1 && dots {
        assert(c =~= seq!['.']);
    }
    if c == seq!['.', '.'] {
        assert(c[0] == '.' && c[1] == '.');
    }
}

proof fn lemma_components_nonempty(p: Seq<char>)
    ensures
        components(p).len() >= 1,
    decreases p.len(),
{
    if p.len() > 0 {
        lemma_components_nonempty(p.drop_last());
    }
}

proof fn lemma_components_prefix(p: Seq<char>, j: int)
    requires
        0 <= j <= p.len(),
    ensures
        components(p.take(j)).len() <= components(p).len(),
        components(p).take(components(p.take(j)).len() - 1) == components(p.take(j)).drop_last(),
    decreases p.len(),
{
    lemma_components_nonempty(p);
    lemma_components_nonempty(p.take(j));
    if j == p.len() {
        assert(p.take(j) =~= p);
        assert(components(p).take(components(p).len() - 1) =~= components(p).drop_last());
    } else {
        let q = p.drop_last();
        assert(q.take(j) =~= p.take(j));
        lemma_components_prefix(q, j);
        lemma_components_nonempty(q);
        let m = components(p.take(j)).len();
        let cq = components(q);
        let cp = components(p);
        assert(cp == if is_separator(p.last()) {
            cq.push(Seq::<char>::empty())
        } else {
            cq.update(cq.len() - 1, cq.last().push(p.last()))
        });
        assert forall|k: int| 0 <= k < m - 1 implies #[trigger] cp.take(m - 1)[k] == cq.take(m - 1)[k] by {
            assert(cp[k] == cq[k]);
        }
        assert(cp.take(m - 1) =~= cq.take(m - 1));
    }
}

proof fn lemma_never_above_take(cs: Seq<Seq<char>>, k: int)
    requires
        0 <= k <= cs.len(),
        never_above_root(cs),
    ensures
        never_above_root(cs.take(k)),
    decreases cs.len(),
{
    if k < cs.len() {
        assert(cs.drop_last().take(k) =~= cs.take(k));
        lemma_never_above_take(cs.drop_last(), k);
    } else {
        assert(cs.take(k) =~= cs);
    }
}

/// A path that starts by going up a level (`../`, `..\`) is refused, however
/// it goes on; so is one that starts at a separator.
pub proof fn lemma_parent_escape_refused(p: Seq<char>)
    requires
        (p.len() >= 3 && p[0] == '.' && p[1] == '.' && is_separator(p[2])) || (p.len() > 0
            && is_separator(p[0])),
    ensures
        !stays_within_root(p),
{
    if !(p.len() > 0 && is_separator(p[0])) {
        let t = p.take(3);
        assert(t.drop_last().drop_last().drop_last() =~= Seq::<char>::empty());
        assert(t.drop_last().drop_last().last() == '.');
        assert(t.drop_last().last() == '.');
        assert(t.last() == p[2]);
        let e = Seq::<char>::empty();
        assert(components(t.drop_last().drop_last().drop_last()) == seq![e]);
        let c1 = components(t.drop_last().drop_last());
        assert(e.push('.') =~= seq!['.']);
        assert(c1 == seq![e].update(0, e.push('.')));
        assert(c1 =~~= seq![seq!['.']]);
        let c2 = components(t.drop_last());
        assert(seq!['.'].push('.') =~= seq!['.', '.']);
        assert(c2 == c1.update(0, c1[0].push('.')));
        assert(c2 =~~= seq![seq!['.', '.']]);
        let c3 = components(t);
        assert(c3 == c2.push(e));
        assert(c3 =~~= seq![seq!['.', '.'], e]);
        let first = c3.drop_last();
        assert(first.drop_last() =~= Seq::<Seq<char>>::empty());
        assert(first.last() == seq!['.', '.']);
        assert(depth_of(first.drop_last()) == 0);
        assert(depth_of(first) == -1);
        assert(!never_above_root(first));
        lemma_components_prefix(p, 3);
        if never_above_root(components(p)) {
            lemma_never_above_take(components(p), 1);
        }
    }
}

} // verus!
