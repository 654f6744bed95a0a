//! Paths, as text: their parts, and one below another.

use crate::args::below;
use crate::text::{begins, join, joined, same, views};
use crate::words::{fields, fields_of};
use vstd::prelude::*;

verus! {

/// The path starts at the root.
pub open spec fn rooted(path: Seq<char>) -> bool {
    fields_of(path, '/').len() > 1 && fields_of(path, '/')[0].len() == 0
}

/// The places of the fields that are parts: those that are not empty, and are
/// not a dot behind the first.
pub open spec fn part_places(fields: Seq<Seq<char>>) -> Seq<usize>
    decreases fields.len(),
{
    if fields.len() == 0 {
        Seq::empty()
    } else {
        let before = part_places(fields.drop_last());
        if fields.last().len() == 0 || (fields.last() == "."@ && fields.len() > 1) {
            before
        } else {
            before.push((fields.len() - 1) as usize)
        }
    }
}

/// The fields at some places.
pub open spec fn fields_at(fields: Seq<Seq<char>>, at: Seq<usize>) -> Seq<Seq<char>> {
    Seq::new(at.len(), |i: int| fields[at[i] as int])
}

/// The parts of a path.
pub open spec fn parts_of(path: Seq<char>) -> Seq<Seq<char>> {
    let f = fields_of(path, '/');
    fields_at(f, part_places(f))
}

/// The two paths have the same parts, from the same start.
pub open spec fn alike(a: Seq<char>, b: Seq<char>) -> bool {
    rooted(a) == rooted(b) && parts_of(a) == parts_of(b)
}

/// A path, taken apart.
pub struct Parts {
    pub rooted: bool,
    pub fields: Vec<String>,
    /// Which of the fields are parts.
    pub places: Vec<usize>,
}

impl Parts {
    /// These are the parts of `path`.
    pub open spec fn of(&self, path: Seq<char>) -> bool {
        &&& self.rooted == rooted(path)
        &&& views(self.fields@) == fields_of(path, '/')
        &&& self.places@ == part_places(fields_of(path, '/'))
        &&& forall|i: int|
            0 <= i < self.places.len() ==> (#[trigger] self.places@[i]) < self.fields.len()
        &&& forall|i: int, j: int|
            0 <= i < j < self.places.len() ==> self.places@[i] < self.places@[j]
    }
}

proof fn places_rise(fields: Seq<Seq<char>>)
    requires
        fields.len() <= usize::MAX,
    ensures
        forall|i: int|
            0 <= i < part_places(fields).len() ==> (#[trigger] part_places(fields)[i])
                < fields.len(),
        forall|i: int, j: int|
            0 <= i < j < part_places(fields).len() ==> part_places(fields)[i] < part_places(
                fields,
            )[j],
    decreases fields.len(),
{
    if fields.len() > 0 {
        let before = part_places(fields.drop_last());
        places_rise(fields.drop_last());
        let after = part_places(fields);
        assert forall|i: int| 0 <= i < after.len() implies (#[trigger] after[i]) < fields.len() by {
            if i < before.len() {
                assert(before[i] < fields.len());
            }
        }
        assert forall|i: int, j: int| 0 <= i < j < after.len() implies after[i] < after[j] by {
            if j < before.len() {
                assert(before[i] < before[j]);
            } else {
                assert(before[i] < fields.len() - 1);
            }
        }
    }
}

/// A path, taken apart.
pub fn parts(path: &str) -> (r: Parts)
    ensures
        r.of(path@),
{
    let f = fields(path, '/');
    let root = f.len() > 1 && f[0].as_str().unicode_len() == 0;
    let ghost all = views(f@);
    let mut places: Vec<usize> = Vec::new();
    let mut i: usize = 0;
    proof {
        assert(all.take(0) =~= Seq::<Seq<char>>::empty());
    }
    while i < f.len()
        invariant
            i <= f.len(),
            all == views(f@),
            places@ == part_places(all.take(i as int)),
        decreases f.len() - i,
    {
        proof {
            assert(all.take(i + 1).drop_last() =~= all.take(i as int));
            assert(all.take(i + 1).last() == f@[i as int]@);
        }
        let empty = f[i].as_str().unicode_len() == 0;
        let dot = same(f[i].as_str(), ".");
        if !(empty || (dot && i > 0)) {
            places.push(i);
        }
        i = i + 1;
    }
    proof {
        assert(all.take(i as int) =~= all);
        assert(all.len() == f.len());
        places_rise(all);
    }
    Parts { rooted: root, fields: f, places }
}

/// The first `n` parts of two paths are the same.
fn agree(a: &Parts, b: &Parts, n: usize) -> (r: bool)
    requires
        exists|p: Seq<char>| a.of(p),
        exists|p: Seq<char>| b.of(p),
        n <= a.places.len(),
        n <= b.places.len(),
    ensures
        r == (fields_at(views(a.fields@), a.places@).take(n as int) == fields_at(
            views(b.fields@),
            b.places@,
        ).take(n as int)),
{
    let ghost pa = fields_at(views(a.fields@), a.places@);
    let ghost pb = fields_at(views(b.fields@), b.places@);
    let mut i: usize = 0;
    while i < n
        invariant
            i <= n,
            n <= a.places.len(),
            n <= b.places.len(),
            pa == fields_at(views(a.fields@), a.places@),
            pb == fields_at(views(b.fields@), b.places@),
            forall|i: int|
                0 <= i < a.places.len() ==> (#[trigger] a.places@[i]) < a.fields.len(),
            forall|i: int|
                0 <= i < b.places.len() ==> (#[trigger] b.places@[i]) < b.fields.len(),
            forall|k: int| 0 <= k < i ==> #[trigger] pa[k] == pb[k],
        decreases n - i,
    {
        if !same(a.fields[a.places[i]].as_str(), b.fields[b.places[i]].as_str()) {
            proof {
                assert(pa.take(n as int)[i as int] != pb.take(n as int)[i as int]);
            }
            return false;
        }
        i = i + 1;
    }
    proof {
        assert(pa.take(n as int) =~= pb.take(n as int));
    }
    true
}

/// Whether two paths are the same part by part.
pub fn same_path(a: &str, b: &str) -> (r: bool)
    ensures
        r == alike(a@, b@),
{
    let pa = parts(a);
    let pb = parts(b);
    if pa.rooted != pb.rooted {
        return false;
    }
    if pa.places.len() != pb.places.len() {
        proof {
            assert(parts_of(a@).len() != parts_of(b@).len());
        }
        return false;
    }
    let n: usize = pa.places.len();
    proof {
        assert(parts_of(a@).take(n as int) =~= parts_of(a@));
        assert(parts_of(b@).take(n as int) =~= parts_of(b@));
    }
    agree(&pa, &pb, n)
}

/// The path without its last separators, and without dots at its end.
pub open spec fn tidy(path: Seq<char>) -> Seq<char> {
    let f = fields_of(path, '/');
    let at = part_places(f);
    if at.len() == 0 {
        if rooted(path) {
            "/"@
        } else {
            Seq::empty()
        }
    } else {
        joined(f.take(at.last() + 1), "/"@)
    }
}

/// What is left of a path from its part `n` on.
pub open spec fn tail_from(path: Seq<char>, n: int) -> Seq<char> {
    let f = fields_of(path, '/');
    let at = part_places(f);
    if n >= at.len() {
        Seq::empty()
    } else {
        joined(f.subrange(at[n] as int, at.last() + 1), "/"@)
    }
}

/// `path` lies below `root`: it has the same start, and its first parts are
/// those of `root`. Every path lies below the empty one.
pub open spec fn lies_below(path: Seq<char>, root: Seq<char>) -> bool {
    let n = parts_of(root).len() as int;
    if n == 0 && !rooted(root) {
        true
    } else {
        rooted(path) == rooted(root) && n <= parts_of(path).len() && parts_of(path).take(n)
            == parts_of(root)
    }
}

/// What is left of `path` below `root`; the whole of it, where it does not lie
/// there.
pub open spec fn short_of(path: Seq<char>, root: Seq<char>) -> Seq<char> {
    if !lies_below(path, root) {
        path
    } else if parts_of(root).len() == 0 && !rooted(root) {
        tidy(path)
    } else {
        tail_from(path, parts_of(root).len() as int)
    }
}

fn between(fields: &Vec<String>, from: usize, to: usize) -> (r: String)
    requires
        from <= to <= fields.len(),
    ensures
        r@ == joined(views(fields@).subrange(from as int, to as int), "/"@),
{
    let mut kept: Vec<String> = Vec::new();
    let mut i: usize = from;
    while i < to
        invariant
            from <= i <= to <= fields.len(),
            views(kept@) == views(fields@).subrange(from as int, i as int),
        decreases to - i,
    {
        let ghost before = views(kept@);
        kept.push(fields[i].clone());
        i = i + 1;
        proof {
            assert(views(kept@) =~= before.push(fields@[i - 1]@));
            assert(views(kept@) =~= views(fields@).subrange(from as int, i as int));
        }
    }
    join(&kept, "/")
}

/// What is left of `path` below `root`; the whole of it, where it does not lie
/// there.
pub fn short(path: &str, root: &str) -> (r: String)
    ensures
        r@ == short_of(path@, root@),
{
    let p = parts(path);
    let b = parts(root);
    let n: usize = b.places.len();
    let m: usize = p.places.len();
    proof {
        assert(parts_of(root@).len() == n);
        assert(parts_of(path@).len() == m);
        assert(parts_of(root@).take(n as int) =~= parts_of(root@));
    }
    if n == 0 && !b.rooted {
        if m == 0 {
            if p.rooted {
                return String::from_str("/");
            }
            return String::new();
        }
        let end: usize = p.places[m - 1] + 1;
        proof {
            assert(views(p.fields@).subrange(0, end as int) =~= fields_of(path@, '/').take(
                end as int,
            ));
        }
        return between(&p.fields, 0, end);
    }
    if p.rooted != b.rooted || m < n {
        return String::from_str(path);
    }
    if !agree(&p, &b, n) {
        return String::from_str(path);
    }
    if n >= m {
        return String::new();
    }
    let start: usize = p.places[n];
    let end: usize = p.places[m - 1] + 1;
    between(&p.fields, start, end)
}

/// The last place of a dot in a name.
pub open spec fn last_dot(name: Seq<char>) -> Option<int>
    decreases name.len(),
{
    if name.len() == 0 {
        None
    } else if name.last() == '.' {
        Some(name.len() - 1)
    } else {
        last_dot(name.drop_last())
    }
}

/// The name that a path ends in, where it ends in one.
pub open spec fn name_in(path: Seq<char>) -> Option<Seq<char>> {
    let parts = parts_of(path);
    if parts.len() == 0 || parts.last() == "."@ || parts.last() == ".."@ {
        None
    } else {
        Some(parts.last())
    }
}

/// The name that a path ends in, where it ends in one.
pub fn file_name(path: &str) -> (r: Option<String>)
    ensures
        crate::args::maybe(r) == name_in(path@),
{
    let p = parts(path);
    let n: usize = p.places.len();
    proof {
        assert(parts_of(path@).len() == n);
    }
    if n == 0 {
        return None;
    }
    let name = &p.fields[p.places[n - 1]];
    if same(name.as_str(), ".") || same(name.as_str(), "..") {
        return None;
    }
    Some(name.clone())
}

/// A name without its extension: what stands before its last dot, unless nothing
/// does.
pub open spec fn stem_of(name: Seq<char>) -> Seq<char> {
    match last_dot(name) {
        None => name,
        Some(i) => if i == 0 {
            name
        } else {
            name.take(i)
        },
    }
}

/// The name that a path ends in, without its extension.
pub fn file_stem(path: &str) -> (r: Option<String>)
    ensures
        crate::args::maybe(r) == match name_in(path@) {
            None => None::<Seq<char>>,
            Some(name) => Some(stem_of(name)),
        },
{
    match file_name(path) {
        None => None,
        Some(name) => {
            let chars = crate::text::characters(name.as_str());
            let mut i: usize = chars.len();
            proof {
                assert(chars@.take(i as int) =~= chars@);
            }
            while i > 0 && chars[i - 1] != '.'
                invariant
                    i <= chars.len(),
                    last_dot(chars@) == last_dot(chars@.take(i as int)),
                decreases i,
            {
                proof {
                    assert(chars@.take(i as int).drop_last() =~= chars@.take(i - 1));
                }
                i = i - 1;
            }
            if i <= 1 {
                return Some(name);
            }
            let mut stem: Vec<char> = Vec::new();
            let mut k: usize = 0;
            while k < i - 1
                invariant
                    k <= i - 1,
                    1 < i <= chars.len(),
                    stem@ == chars@.take(k as int),
                decreases i - 1 - k,
            {
                stem.push(chars[k]);
                k = k + 1;
                proof {
                    assert(stem@ =~= chars@.take(k as int));
                }
            }
            Some(crate::text::from_characters(&stem))
        },
    }
}

/// A path with the same parts lies below the same roots, and as deep.
pub proof fn paths_alike_lie_below_the_same(a: Seq<char>, b: Seq<char>, root: Seq<char>)
    requires
        alike(a, b),
    ensures
        lies_below(a, root) == lies_below(b, root),
{
}

/// Every path lies below itself, and nothing is left of it there.
pub proof fn nothing_is_left_below_itself(path: Seq<char>)
    requires
        parts_of(path).len() > 0 || rooted(path),
    ensures
        lies_below(path, path),
        short_of(path, path) == Seq::<char>::empty(),
{
    assert(parts_of(path).take(parts_of(path).len() as int) =~= parts_of(path));
}

proof fn some_field_is_there(s: Seq<char>)
    ensures
        0 < fields_of(s, '/').len() <= s.len() + 1,
    decreases s.len(),
{
    if s.len() > 0 {
        some_field_is_there(s.drop_last());
    }
}

/// An empty first field stands before a separator, or is all there is.
proof fn an_empty_field_stands_alone(s: Seq<char>)
    requires
        s.len() > 0,
    ensures
        fields_of(s, '/')[0].len() == 0 <==> s[0] == '/',
        s[0] == '/' ==> fields_of(s, '/').len() > 1,
    decreases s.len(),
{
    let shorter = s.drop_last();
    some_field_is_there(shorter);
    if s.len() == 1 {
        assert(shorter =~= Seq::<char>::empty());
    } else {
        an_empty_field_stands_alone(shorter);
        assert(shorter[0] == s[0]);
    }
}

/// A separator between two texts puts their fields one behind the other.
proof fn fields_are_put_together(a: Seq<char>, b: Seq<char>)
    ensures
        fields_of(a + "/"@ + b, '/') == fields_of(a, '/') + fields_of(b, '/'),
    decreases b.len(),
{
    reveal_strlit("/");
    let whole = a + "/"@ + b;
    some_field_is_there(b);
    if b.len() == 0 {
        assert(whole.drop_last() =~= a);
        assert(whole.last() == '/');
        assert(fields_of(b, '/') =~= seq![Seq::<char>::empty()]);
        assert(fields_of(a, '/').push(Seq::empty()) =~= fields_of(a, '/') + fields_of(b, '/'));
    } else {
        let rest = b.drop_last();
        fields_are_put_together(a, rest);
        some_field_is_there(rest);
        assert(whole.drop_last() =~= a + "/"@ + rest);
        assert(whole.last() == b.last());
        let f = fields_of(a, '/');
        let g = fields_of(rest, '/');
        assert((f + g).last() == g.last());
        assert((f + g).drop_last() =~= f + g.drop_last());
        assert(fields_of(whole, '/') =~= f + fields_of(b, '/'));
    }
}

/// The parts of two lists of fields, one behind the other.
proof fn places_are_put_together(f: Seq<Seq<char>>, g: Seq<Seq<char>>)
    requires
        f.len() > 0,
        f.len() + g.len() <= usize::MAX,
        g.len() > 0 ==> g[0] != "."@,
    ensures
        part_places(f + g).len() == part_places(f).len() + part_places(g).len(),
        forall|i: int|
            0 <= i < part_places(f).len() ==> (#[trigger] part_places(f + g)[i]) == part_places(f)[i],
        forall|i: int|
            part_places(f).len() <= i < part_places(f + g).len() ==> (#[trigger] part_places(f + g)[i])
                == f.len() + part_places(g)[i - part_places(f).len()],
    decreases g.len(),
{
    if g.len() == 0 {
        assert(f + g =~= f);
    } else {
        places_are_put_together(f, g.drop_last());
        assert((f + g).drop_last() =~= f + g.drop_last());
        assert((f + g).last() == g.last());
    }
}

/// Shortening a path undoes putting a name below a directory: what is left is
/// the name, without separators and dots at its end. A name that starts at the
/// root, or with a dot of its own, does not lie below the directory as such.
pub proof fn short_undoes_below(dir: Seq<char>, name: Seq<char>)
    requires
        dir.len() + name.len() + 2 <= usize::MAX,
        !begins(name, "/"@),
        dir.len() > 0 ==> fields_of(name, '/')[0] != "."@,
    ensures
        lies_below(below(dir, name), dir),
        short_of(below(dir, name), dir) == tidy(name),
        tidy(name) == name ==> short_of(below(dir, name), dir) == name,
{
    reveal_strlit("/");
    reveal_strlit(".");
    let path = below(dir, name);
    if dir.len() == 0 {
        assert(dir =~= Seq::<char>::empty());
        assert(path =~= name);
        assert(part_places(seq![Seq::<char>::empty()].drop_last()) =~= Seq::empty());
    } else {
        let a = if dir.last() == '/' {
            dir.drop_last()
        } else {
            dir
        };
        assert(path =~= a + "/"@ + name);
        let f = fields_of(a, '/');
        let g = fields_of(name, '/');
        fields_are_put_together(a, name);
        some_field_is_there(a);
        some_field_is_there(name);
        places_are_put_together(f, g);
        an_empty_field_stands_alone(dir);
        let d = fields_of(dir, '/');
        if dir.last() == '/' {
            assert(d == f.push(Seq::empty()));
            assert(d.drop_last() =~= f);
        }
        let at = part_places(f + g);
        let low = part_places(f);
        let high = part_places(g);
        let n = low.len() as int;
        assert(part_places(d) == low);
        places_rise(f);
        places_rise(g);
        places_rise(f + g);
        assert(path.len() > 0 && path[0] == dir[0]) by {
            if dir.last() == '/' && a.len() == 0 {
                assert(path[0] == '/');
            }
        }
        an_empty_field_stands_alone(path);
        assert(rooted(path) == rooted(dir));
        assert(parts_of(path).take(n) =~= parts_of(dir)) by {
            assert forall|i: int| 0 <= i < n implies parts_of(path)[i] == parts_of(dir)[i] by {
                assert(at[i] == low[i]);
                assert(low[i] < f.len());
            }
        }
        assert(n == 0 ==> rooted(dir)) by {
            if !rooted(dir) {
                assert(d[0].len() > 0);
                first_place(d);
            }
        }
        if high.len() > 0 {
            assert(name.len() > 0) by {
                if name.len() == 0 {
                    assert(part_places(g.drop_last()) =~= Seq::empty());
                }
            }
            an_empty_field_stands_alone(name);
            assert(name[0] != '/') by {
                if name[0] == '/' {
                    assert(name.subrange(0, 1) =~= "/"@);
                }
            }
            first_place(g);
            assert(at[n] == f.len());
            assert(at.last() == f.len() + high.last());
            assert((f + g).subrange(at[n] as int, at.last() + 1) =~= g.take(high.last() + 1));
        } else {
            assert(!rooted(name)) by {
                if name.len() > 0 {
                    an_empty_field_stands_alone(name);
                    if name[0] == '/' {
                        assert(name.subrange(0, 1) =~= "/"@);
                    }
                }
            }
        }
    }
}

/// A first field that is not empty is the first part.
proof fn first_place(fields: Seq<Seq<char>>)
    requires
        0 < fields.len() <= usize::MAX,
        fields[0].len() > 0,
    ensures
        part_places(fields).len() > 0,
        part_places(fields)[0] == 0,
    decreases fields.len(),
{
    if fields.len() > 1 {
        first_place(fields.drop_last());
    } else {
        assert(part_places(fields.drop_last()) =~= Seq::empty());
    }
}

} // verus!
