//! Unix path logic on raw path bytes: the file name and the file stem of a
//! path, and the joining of a relative path onto a base.

use vstd::prelude::*;
use vstd::slice::slice_to_vec;

verus! {

/// The byte `/`, the separator of path components.
pub open spec fn is_separator(b: u8) -> bool {
    b == 47
}

/// The byte `.`.
pub open spec fn is_dot(b: u8) -> bool {
    b == 46
}

/// Start of the component that ends at `end`: the index just after the last
/// separator before `end`, or 0.
pub open spec fn segment_start(p: Seq<u8>, end: int) -> int
    decreases end,
{
    if end <= 0 {
        0
    } else if is_separator(p[end - 1]) {
        end
    } else {
        segment_start(p, end - 1)
    }
}

pub proof fn lemma_segment_start(p: Seq<u8>, end: int)
    requires
        0 <= end <= p.len(),
    ensures
        0 <= segment_start(p, end) <= end,
        end > 0 && !is_separator(p[end - 1]) ==> segment_start(p, end) < end,
        forall|j: int| segment_start(p, end) <= j < end ==> !is_separator(#[trigger] p[j]),
        segment_start(p, end) > 0 ==> is_separator(p[segment_start(p, end) - 1]),
    decreases end,
{
    if end > 0 && !is_separator(p[end - 1]) {
        lemma_segment_start(p, end - 1);
    }
}

/// The bounds of the file name within `p[..end]`: the last component that is
/// neither empty nor `.`, when it is not `..`.
pub open spec fn name_bounds(p: Seq<u8>, end: int) -> Option<(int, int)>
    decreases end,
{
    if end <= 0 || end > p.len() {
        None
    } else if is_separator(p[end - 1]) {
        name_bounds(p, end - 1)
    } else {
        let s = segment_start(p, end);
        proof {
            lemma_segment_start(p, end);
        }
        if end - s == 1 && is_dot(p[s]) {
            name_bounds(p, s)
        } else if end - s == 2 && is_dot(p[s]) && is_dot(p[s + 1]) {
            None
        } else {
            Some((s, end))
        }
    }
}

pub proof fn lemma_name_bounds(p: Seq<u8>, end: int)
    requires
        0 <= end <= p.len(),
    ensures
        name_bounds(p, end) matches Some((s, e)) ==> 0 <= s < e <= end,
    decreases end,
{
    if end > 0 {
        if is_separator(p[end - 1]) {
            lemma_name_bounds(p, end - 1);
        } else {
            lemma_segment_start(p, end);
            lemma_name_bounds(p, segment_start(p, end));
        }
    }
}

/// The file name of a path, as `Path::file_name` gives it on Unix.
pub open spec fn file_name_of(p: Seq<u8>) -> Option<Seq<u8>> {
    match name_bounds(p, p.len() as int) {
        Some((s, e)) => Some(p.subrange(s, e)),
        None => None,
    }
}

/// Index of the last `.` in `n`, or -1 when there is none.
pub open spec fn last_dot(n: Seq<u8>) -> int
    decreases n.len(),
{
    if n.len() == 0 {
        -1
    } else if is_dot(n.last()) {
        n.len() - 1
    } else {
        last_dot(n.drop_last())
    }
}

/// The stem of a file name: the part before the last `.`, unless that `.`
/// opens the name or there is none.
pub open spec fn stem_of(name: Seq<u8>) -> Seq<u8> {
    if last_dot(name) > 0 {
        name.subrange(0, last_dot(name))
    } else {
        name
    }
}

/// The file stem of a path, as `Path::file_stem` gives it on Unix.
pub open spec fn file_stem_of(p: Seq<u8>) -> Option<Seq<u8>> {
    match file_name_of(p) {
        Some(name) => Some(stem_of(name)),
        None => None,
    }
}

fn component_start(p: &[u8], end: usize) -> (s: usize)
    requires
        end <= p@.len(),
    ensures
        s == segment_start(p@, end as int),
{
    let mut i = end;
    while i > 0 && p[i - 1] != 47
        invariant
            i <= end <= p@.len(),
            segment_start(p@, end as int) == segment_start(p@, i as int),
        decreases i,
    {
        i = i - 1;
    }
    i
}

/// Bounds of the file name of `p`.
fn file_name_bounds(p: &[u8]) -> (r: Option<(usize, usize)>)
    ensures
        match r {
            Some((s, e)) => name_bounds(p@, p@.len() as int) == Some((s as int, e as int)),
            None => name_bounds(p@, p@.len() as int) is None,
        },
{
    let mut end = p.len();
    loop
        invariant
            end <= p@.len(),
            name_bounds(p@, p@.len() as int) == name_bounds(p@, end as int),
        decreases end,
    {
        if end == 0 {
            return None;
        }
        if p[end - 1] == 47 {
            end = end - 1;
        } else {
            let s = component_start(p, end);
            proof {
                lemma_segment_start(p@, end as int);
            }
            if end - s == 1 && p[s] == 46 {
                end = s;
            } else if end - s == 2 && p[s] == 46 && p[s + 1] == 46 {
                return None;
            } else {
                return Some((s, end));
            }
        }
    }
}

/// The file name of a path given as bytes (`Path::file_name` on Unix).
pub fn file_name(path: &[u8]) -> (r: Option<Vec<u8>>)
    ensures
        match r {
            Some(v) => file_name_of(path@) == Some(v@),
            None => file_name_of(path@) is None,
        },
{
    match file_name_bounds(path) {
        Some((s, e)) => {
            proof {
                lemma_name_bounds(path@, path@.len() as int);
            }
            Some(slice_to_vec(&path[s..e]))
        },
        None => None,
    }
}

/// The file stem of a path given as bytes (`Path::file_stem` on Unix): the
/// file name without its extension.
pub fn file_stem(path: &[u8]) -> (r: Option<Vec<u8>>)
    ensures
        match r {
            Some(v) => file_stem_of(path@) == Some(v@),
            None => file_stem_of(path@) is None,
        },
{
    let name = match file_name(path) {
        Some(name) => name,
        None => return None,
    };
    let mut k = name.len();
    assert(name@.subrange(0, k as int) =~= name@);
    while k > 0 && name[k - 1] != 46
        invariant
            k <= name@.len(),
            last_dot(name@) == last_dot(name@.subrange(0, k as int)),
        decreases k,
    {
        assert(name@.subrange(0, k as int).drop_last() =~= name@.subrange(0, k - 1));
        k = k - 1;
    }
    assert(name@.subrange(0, name@.len() as int) =~= name@);
    if k > 1 {
        assert(last_dot(name@.subrange(0, k as int)) == k - 1);
        Some(slice_to_vec(&name.as_slice()[0..k - 1]))
    } else {
        proof {
            if k == 1 {
                assert(last_dot(name@.subrange(0, 1)) == 0);
            } else {
                assert(last_dot(name@.subrange(0, 0)) == -1);
            }
        }
        Some(name)
    }
}

/// `n` holds no byte `b`.
pub open spec fn lacks(n: Seq<u8>, b: u8) -> bool {
    forall|i: int| 0 <= i < n.len() ==> n[i] != b
}

proof fn lemma_segment_start_after_dir(dir: Seq<u8>, name: Seq<u8>, end: int)
    requires
        dir.len() == 0 || is_separator(dir.last()),
        lacks(name, 47),
        dir.len() <= end <= dir.len() + name.len(),
    ensures
        segment_start(dir + name, end) == dir.len(),
    decreases end,
{
    let p = dir + name;
    if end > dir.len() {
        assert(p[end - 1] == name[end - 1 - dir.len()]);
        lemma_segment_start_after_dir(dir, name, end - 1);
    } else if end > 0 {
        assert(p[end - 1] == dir.last());
    }
}

/// The file name of a path whose last component is a plain name is that
/// name.
proof fn lemma_file_name_of_plain(dir: Seq<u8>, name: Seq<u8>)
    requires
        dir.len() == 0 || is_separator(dir.last()),
        lacks(name, 47),
        name.len() > 0,
        name != seq![46u8],
        name != seq![46u8, 46u8],
    ensures
        file_name_of(dir + name) == Some(name),
{
    let p = dir + name;
    lemma_segment_start_after_dir(dir, name, p.len() as int);
    assert(p[p.len() - 1] == name[name.len() - 1]);
    assert(p.subrange(dir.len() as int, p.len() as int) =~= name);
    if name.len() == 1 && is_dot(p[dir.len() as int]) {
        assert(name =~= seq![46u8]);
    }
    if name.len() == 2 && is_dot(p[dir.len() as int]) && is_dot(p[dir.len() + 1int]) {
        assert(name =~= seq![46u8, 46u8]);
    }
}

proof fn lemma_last_dot_of_extension(stem: Seq<u8>, ext: Seq<u8>)
    requires
        lacks(ext, 46),
    ensures
        last_dot(stem + seq![46u8] + ext) == stem.len(),
    decreases ext.len(),
{
    let n = stem + seq![46u8] + ext;
    if ext.len() == 0 {
        assert(n.last() == 46u8);
    } else {
        assert(n.last() == ext.last());
        assert(n.drop_last() =~= stem + seq![46u8] + ext.drop_last());
        lemma_last_dot_of_extension(stem, ext.drop_last());
    }
}

/// The file stem of a path strips the extension after the last `.` of the
/// file name, however long that extension is: for a path `dir/stem.ext`
/// (or `stem.ext` alone) with a non-empty stem and an extension without `.`,
/// the file stem is `stem`.
pub proof fn law_file_stem_strips_extension(dir: Seq<u8>, stem: Seq<u8>, ext: Seq<u8>)
    requires
        dir.len() == 0 || is_separator(dir.last()),
        stem.len() > 0,
        ext.len() > 0,
        lacks(stem, 47),
        lacks(ext, 47),
        lacks(ext, 46),
    ensures
        file_stem_of(dir + (stem + seq![46u8] + ext)) == Some(stem),
{
    let name = stem + seq![46u8] + ext;
    assert(lacks(name, 47)) by {
        assert forall|i: int| 0 <= i < name.len() implies name[i] != 47 by {
            if i < stem.len() {
                assert(name[i] == stem[i]);
            } else if i > stem.len() {
                assert(name[i] == ext[i - stem.len() - 1]);
            }
        }
    }
    assert(name.len() >= 3);
    lemma_file_name_of_plain(dir, name);
    lemma_last_dot_of_extension(stem, ext);
    assert(name.subrange(0, stem.len() as int) =~= stem);
}

/// A file name without `.` is its own stem: for a path `dir/name` the file
/// stem is the whole name.
pub proof fn law_file_stem_without_extension(dir: Seq<u8>, name: Seq<u8>)
    requires
        dir.len() == 0 || is_separator(dir.last()),
        name.len() > 0,
        lacks(name, 47),
        lacks(name, 46),
    ensures
        file_stem_of(dir + name) == Some(name),
{
    assert(name[0] != 46u8);
    lemma_file_name_of_plain(dir, name);
    lemma_last_dot_none(name);
}

proof fn lemma_last_dot_none(n: Seq<u8>)
    requires
        lacks(n, 46),
    ensures
        last_dot(n) == -1,
    decreases n.len(),
{
    if n.len() > 0 {
        assert(n.last() == n[n.len() - 1]);
        lemma_last_dot_none(n.drop_last());
    }
}

} // verus!
