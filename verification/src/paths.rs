//! Paths as the library reads them: a path is the sequence of its components,
//! and one path lies under another when the other's components begin it.
//!
//! Components follow the Unix reading of a path. A leading `/` is the root
//! component. The text between separators is a component unless it is empty or
//! a single dot; a single dot counts only where it begins a relative path.

use vstd::prelude::*;
use crate::text::{chars_of, str_eq, texts};

verus! {

/// Index of the first `/` at or after `from`, or the length of `s`.
pub open spec fn next_slash(s: Seq<char>, from: int) -> int
    decreases s.len() - from,
{
    if from >= s.len() {
        s.len() as int
    } else if s[from] == '/' {
        from
    } else {
        next_slash(s, from + 1)
    }
}

/// Whether the text between two separators counts as a component.
pub open spec fn keeps_piece(piece: Seq<char>, leading: bool) -> bool {
    piece.len() > 0 && (leading || piece != seq!['.'])
}

/// The components of the part of `s` that starts at `from`. `leading` says
/// that `from` begins a relative path, where a single dot is kept.
pub open spec fn components_from(s: Seq<char>, from: int, leading: bool) -> Seq<Seq<char>>
    decreases s.len() - from,
    via components_from_decreases
{
    if from > s.len() || from < 0 {
        seq![]
    } else {
        let k = next_slash(s, from);
        let piece = s.subrange(from, k);
        let head = if keeps_piece(piece, leading) {
            seq![piece]
        } else {
            seq![]
        };
        if k < s.len() {
            head + components_from(s, k + 1, false)
        } else {
            head
        }
    }
}

#[via_fn]
proof fn components_from_decreases(s: Seq<char>, from: int, leading: bool) {
    if 0 <= from <= s.len() {
        lemma_next_slash_bounds(s, from);
    }
}

/// The components of a path.
pub open spec fn components(s: Seq<char>) -> Seq<Seq<char>> {
    if s.len() > 0 && s[0] == '/' {
        seq![seq!['/']] + components_from(s, 1, false)
    } else {
        components_from(s, 0, true)
    }
}

/// Whether `path` is `base` or lies below it, component by component.
pub open spec fn lies_under(path: Seq<char>, base: Seq<char>) -> bool {
    components(base).is_prefix_of(components(path))
}

/// A component that names a file or directory: not empty, without a
/// separator, and neither the root nor a dot entry.
pub open spec fn is_name(c: Seq<char>) -> bool {
    &&& c.len() > 0
    &&& !c.contains('/')
    &&& c != seq!['.']
    &&& c != seq!['.', '.']
}

/// A component that a separator-joined text gives back unchanged.
pub open spec fn is_plain(c: Seq<char>) -> bool {
    &&& c.len() > 0
    &&& !c.contains('/')
    &&& c != seq!['.']
}

/// The parts written one after the other with a `/` between neighbours.
pub open spec fn slash_joined(parts: Seq<Seq<char>>) -> Seq<char>
    decreases parts.len(),
{
    if parts.len() == 0 {
        seq![]
    } else if parts.len() == 1 {
        parts[0]
    } else {
        slash_joined(parts.drop_last()) + seq!['/'] + parts.last()
    }
}

/// `rel` adjoined to `base`: `rel` alone where it is absolute, else `base`,
/// a separator unless `base` is empty or ends in one, and `rel`.
pub open spec fn joined_path(base: Seq<char>, rel: Seq<char>) -> Seq<char> {
    if rel.len() > 0 && rel[0] == '/' {
        rel
    } else if base.len() == 0 || base.last() == '/' {
        base + rel
    } else {
        base + seq!['/'] + rel
    }
}

/// What remains of `path` below `base`, written with single separators.
pub open spec fn relative_to(path: Seq<char>, base: Seq<char>) -> Seq<char> {
    slash_joined(components(path).skip(components(base).len() as int))
}

/// `path` moved from below `from` to below `to`.
pub open spec fn rebased(path: Seq<char>, from: Seq<char>, to: Seq<char>) -> Seq<char> {
    joined_path(to, relative_to(path, from))
}

/// The last component of a path where it names a file or directory.
pub open spec fn file_name_of(path: Seq<char>) -> Option<Seq<char>> {
    let c = components(path);
    if c.len() > 0 && c.last() != seq!['/'] && c.last() != seq!['.'] && c.last() != seq!['.', '.'] {
        Some(c.last())
    } else {
        None
    }
}

/// Index of the last `.` of `s` before `upto`, or -1.
pub open spec fn last_dot(s: Seq<char>, upto: int) -> int
    decreases upto,
{
    if upto <= 0 {
        -1
    } else if s[upto - 1] == '.' {
        upto - 1
    } else {
        last_dot(s, upto - 1)
    }
}

/// The extension of a file name: what follows its last dot, unless the name
/// has no dot or only the one that begins it.
pub open spec fn extension_of_name(name: Seq<char>) -> Option<Seq<char>> {
    let d = last_dot(name, name.len() as int);
    if d <= 0 {
        None
    } else {
        Some(name.subrange(d + 1, name.len() as int))
    }
}

/// The extension of the file that a path names.
pub open spec fn extension_of(path: Seq<char>) -> Option<Seq<char>> {
    match file_name_of(path) {
        Some(name) => extension_of_name(name),
        None => None,
    }
}

pub proof fn lemma_next_slash_bounds(s: Seq<char>, from: int)
    requires
        0 <= from <= s.len(),
    ensures
        from <= next_slash(s, from) <= s.len(),
        forall|i: int| from <= i < next_slash(s, from) ==> s[i] != '/',
        next_slash(s, from) < s.len() ==> s[next_slash(s, from)] == '/',
    decreases s.len() - from,
{
    if from < s.len() && s[from] != '/' {
        lemma_next_slash_bounds(s, from + 1);
    }
}

/// The next separator of `y` is found in `x + y` at the same place, shifted.
pub proof fn lemma_next_slash_shift(x: Seq<char>, y: Seq<char>, j: int)
    requires
        0 <= j <= y.len(),
    ensures
        next_slash(x + y, x.len() + j) == x.len() + next_slash(y, j),
    decreases y.len() - j,
{
    let s = x + y;
    if j < y.len() {
        assert(s[x.len() + j] == y[j]);
        if y[j] != '/' {
            lemma_next_slash_shift(x, y, j + 1);
        }
    }
}

/// The components of `y` are those of `x + y` from where `y` starts.
pub proof fn lemma_components_shift(x: Seq<char>, y: Seq<char>, j: int)
    requires
        0 <= j <= y.len(),
    ensures
        components_from(x + y, x.len() + j, false) == components_from(y, j, false),
    decreases y.len() - j,
{
    let s = x + y;
    lemma_next_slash_shift(x, y, j);
    lemma_next_slash_bounds(y, j);
    let k = next_slash(y, j);
    assert(s.subrange(x.len() + j, x.len() + k) =~= y.subrange(j, k));
    if k < y.len() {
        lemma_components_shift(x, y, k + 1);
    }
}

/// Up to a separator the components of a text are those of what stands before
/// it, and from there on those of what follows.
pub proof fn lemma_components_concat(a: Seq<char>, b: Seq<char>, from: int, leading: bool)
    requires
        0 <= from <= a.len(),
    ensures
        components_from(a + seq!['/'] + b, from, leading) == components_from(a, from, leading)
            + components_from(b, 0, false),
    decreases a.len() - from,
{
    let s = a + seq!['/'] + b;
    lemma_next_slash_bounds(a, from);
    let k = next_slash(a, from);
    lemma_next_slash_prefix(a, seq!['/'] + b, from);
    assert(a + (seq!['/'] + b) =~= s);
    assert(s[a.len() as int] == '/');
    if k < a.len() {
        assert(next_slash(s, from) == k);
        assert(s.subrange(from, k) =~= a.subrange(from, k));
        lemma_components_concat(a, b, k + 1, false);
        let head = if keeps_piece(a.subrange(from, k), leading) {
            seq![a.subrange(from, k)]
        } else {
            seq![]
        };
        assert(head + (components_from(a, k + 1, false) + components_from(b, 0, false)) =~= (head
            + components_from(a, k + 1, false)) + components_from(b, 0, false));
    } else {
        lemma_next_slash_at_separator(s, from, a.len() as int);
        assert(next_slash(s, from) == a.len());
        assert(s.subrange(from, a.len() as int) =~= a.subrange(from, a.len() as int));
        lemma_components_shift(a + seq!['/'], b, 0);
        assert((a + seq!['/']) + b =~= s);
    }
}

/// Before the end of `a`, the next separator of `a + rest` is that of `a`.
pub proof fn lemma_next_slash_prefix(a: Seq<char>, rest: Seq<char>, from: int)
    requires
        0 <= from <= a.len(),
    ensures
        next_slash(a, from) < a.len() ==> next_slash(a + rest, from) == next_slash(a, from),
    decreases a.len() - from,
{
    if from < a.len() {
        assert((a + rest)[from] == a[from]);
        if a[from] != '/' {
            lemma_next_slash_prefix(a, rest, from + 1);
        }
    }
}

/// Where no separator stands between `from` and a separator at `at`, the
/// next separator from `from` is at `at`.
pub proof fn lemma_next_slash_at_separator(s: Seq<char>, from: int, at: int)
    requires
        0 <= from <= at < s.len(),
        s[at] == '/',
        forall|i: int| from <= i < at ==> s[i] != '/',
    ensures
        next_slash(s, from) == at,
    decreases at - from,
{
    if from < at {
        lemma_next_slash_at_separator(s, from + 1, at);
    }
}

/// Every component found after the start of a path is plain.
pub proof fn lemma_components_from_plain(s: Seq<char>, from: int)
    requires
        0 <= from <= s.len(),
    ensures
        forall|i: int|
            0 <= i < components_from(s, from, false).len() ==> is_plain(
                #[trigger] components_from(s, from, false)[i],
            ),
    decreases s.len() - from,
{
    lemma_next_slash_bounds(s, from);
    let k = next_slash(s, from);
    let piece = s.subrange(from, k);
    assert(!piece.contains('/')) by {
        if piece.contains('/') {
            let i = choose|i: int| 0 <= i < piece.len() && piece[i] == '/';
            assert(s[from + i] == '/');
        }
    }
    let head = if keeps_piece(piece, false) {
        seq![piece]
    } else {
        seq![]
    };
    let all = components_from(s, from, false);
    if k < s.len() {
        lemma_components_from_plain(s, k + 1);
        let rest = components_from(s, k + 1, false);
        assert forall|i: int| 0 <= i < all.len() implies is_plain(#[trigger] all[i]) by {
            if i < head.len() {
                assert(all[i] == piece);
            } else {
                assert(all[i] == rest[i - head.len()]);
            }
        }
    } else {
        assert forall|i: int| 0 <= i < all.len() implies is_plain(#[trigger] all[i]) by {
            assert(all[i] == piece);
        }
    }
}

/// A path that is not empty has a component, and its components after the
/// first are plain.
pub proof fn lemma_components_shape(s: Seq<char>)
    ensures
        s.len() > 0 ==> components(s).len() > 0,
        forall|i: int| 1 <= i < components(s).len() ==> is_plain(#[trigger] components(s)[i]),
{
    if s.len() > 0 {
        if s[0] == '/' {
            lemma_components_from_plain(s, 1);
            let rest = components_from(s, 1, false);
            assert forall|i: int| 1 <= i < components(s).len() implies is_plain(
                #[trigger] components(s)[i],
            ) by {
                assert(components(s)[i] == rest[i - 1]);
            }
        } else {
            lemma_next_slash_bounds(s, 0);
            let k = next_slash(s, 0);
            assert(k > 0);
            let piece = s.subrange(0, k);
            assert(keeps_piece(piece, true));
            if k < s.len() {
                lemma_components_from_plain(s, k + 1);
                let rest = components_from(s, k + 1, false);
                assert forall|i: int| 1 <= i < components(s).len() implies is_plain(
                    #[trigger] components(s)[i],
                ) by {
                    assert(components(s)[i] == rest[i - 1]);
                }
            }
        }
    }
}

/// Plain parts joined by separators split into those parts again.
pub proof fn lemma_split_of_joined(parts: Seq<Seq<char>>)
    requires
        forall|i: int| 0 <= i < parts.len() ==> is_plain(#[trigger] parts[i]),
    ensures
        components_from(slash_joined(parts), 0, false) == parts,
    decreases parts.len(),
{
    if parts.len() == 0 {
        assert(components_from(seq![], 0, false) =~= parts);
    } else {
        let p = parts.last();
        lemma_single_plain(p);
        if parts.len() == 1 {
            assert(seq![p] =~= parts);
        } else {
            let init = parts.drop_last();
            assert forall|i: int| 0 <= i < init.len() implies is_plain(#[trigger] init[i]) by {
                assert(init[i] == parts[i]);
            }
            lemma_split_of_joined(init);
            let a = slash_joined(init);
            lemma_components_concat(a, p, 0, false);
            assert(init + seq![p] =~= parts);
        }
    }
}

/// A plain text is its own single component.
pub proof fn lemma_single_plain(p: Seq<char>)
    requires
        is_plain(p),
    ensures
        components_from(p, 0, false) == seq![p],
{
    lemma_next_slash_bounds(p, 0);
    let k = next_slash(p, 0);
    if k < p.len() {
        assert(p.contains('/'));
    }
    assert(p.subrange(0, p.len() as int) =~= p);
}

/// The components of a path joined to a base that is not empty are those of
/// the base followed by those of the relative part.
pub proof fn lemma_components_of_joined(base: Seq<char>, rel: Seq<char>)
    requires
        base.len() > 0,
        rel.len() == 0 || rel[0] != '/',
    ensures
        components(joined_path(base, rel)) == components(base) + components_from(rel, 0, false),
{
    let d = joined_path(base, rel);
    if base.last() == '/' {
        let a = base.drop_last();
        assert(base =~= a + seq!['/']);
        assert(d =~= a + seq!['/'] + rel);
        assert(base =~= a + seq!['/'] + Seq::<char>::empty());
        assert(components_from(Seq::<char>::empty(), 0, false) =~= Seq::<Seq<char>>::empty());
        if a.len() == 0 {
            lemma_components_shift(seq!['/'], rel, 0);
            assert(seq!['/'] + rel =~= d);
            assert(components_from(base, 1, false) =~= Seq::<Seq<char>>::empty());
            assert(components(d) =~= components(base) + components_from(rel, 0, false));
        } else if a[0] == '/' {
            lemma_components_concat(a, rel, 1, false);
            lemma_components_concat(a, Seq::<char>::empty(), 1, false);
            assert(components(d) =~= components(base) + components_from(rel, 0, false));
        } else {
            lemma_components_concat(a, rel, 0, true);
            lemma_components_concat(a, Seq::<char>::empty(), 0, true);
            assert(components(d) =~= components(base) + components_from(rel, 0, false));
        }
    } else {
        assert(d =~= base + seq!['/'] + rel);
        if base[0] == '/' {
            lemma_components_concat(base, rel, 1, false);
            assert(components(d) =~= components(base) + components_from(rel, 0, false));
        } else {
            lemma_components_concat(base, rel, 0, true);
        }
    }
}

/// A path rebased below a root that is not empty has the root's components,
/// followed by those it had below the root it came from.
pub proof fn lemma_components_of_rebased(path: Seq<char>, from: Seq<char>, to: Seq<char>)
    requires
        from.len() > 0,
        to.len() > 0,
        lies_under(path, from),
    ensures
        components(rebased(path, from, to)) == components(to) + components(path).skip(
            components(from).len() as int,
        ),
        lies_under(rebased(path, from, to), to),
{
    let n = components(from).len() as int;
    let rem = components(path).skip(n);
    lemma_components_shape(from);
    lemma_components_shape(path);
    assert forall|i: int| 0 <= i < rem.len() implies is_plain(#[trigger] rem[i]) by {
        assert(rem[i] == components(path)[i + n]);
    }
    lemma_split_of_joined(rem);
    lemma_joined_is_relative(rem);
    lemma_components_of_joined(to, slash_joined(rem));
}

/// Text joined from plain parts does not begin with a separator.
pub proof fn lemma_joined_is_relative(parts: Seq<Seq<char>>)
    requires
        forall|i: int| 0 <= i < parts.len() ==> is_plain(#[trigger] parts[i]),
    ensures
        slash_joined(parts).len() == 0 || slash_joined(parts)[0] != '/',
        parts.len() > 0 ==> slash_joined(parts).len() > 0,
    decreases parts.len(),
{
    if parts.len() > 0 {
        let p = parts[0];
        assert(is_plain(p));
        if p[0] == '/' {
            assert(p.contains('/'));
        }
        if parts.len() > 1 {
            let init = parts.drop_last();
            assert forall|i: int| 0 <= i < init.len() implies is_plain(#[trigger] init[i]) by {
                assert(init[i] == parts[i]);
            }
            lemma_joined_is_relative(init);
            assert(init[0] == p);
            assert(slash_joined(parts)[0] == slash_joined(init)[0]);
        }
    }
}

/// Two roots that both begin one path: one of them begins the other.
pub proof fn lemma_common_descendant(path: Seq<char>, a: Seq<char>, b: Seq<char>)
    requires
        lies_under(path, a),
        lies_under(path, b),
    ensures
        lies_under(a, b) || lies_under(b, a),
{
    let p = components(path);
    let x = components(a);
    let y = components(b);
    if x.len() <= y.len() {
        assert forall|i: int| 0 <= i < x.len() implies x[i] == y[i] by {
            assert(x[i] == p[i]);
            assert(y[i] == p[i]);
        }
    } else {
        assert forall|i: int| 0 <= i < y.len() implies y[i] == x[i] by {
            assert(x[i] == p[i]);
            assert(y[i] == p[i]);
        }
    }
}

/// The views of a list that grew by one string are the old views and the
/// view of that string.
pub proof fn lemma_texts_push(v: Seq<String>, x: String)
    ensures
        texts(v.push(x)) == texts(v).push(x@),
{
    assert(texts(v.push(x)) =~= texts(v).push(x@));
}

/// The components of a path, in order.
pub fn split_components(path: &str) -> (r: Vec<String>)
    ensures
        texts(r@) == components(path@),
{
    let chars = chars_of(path);
    let n = chars.len();
    let mut out: Vec<String> = Vec::new();
    let mut pos: usize = 0;
    let mut leading = true;
    assert(texts(out@) =~= Seq::<Seq<char>>::empty());
    if n > 0 && chars[0] == '/' {
        let root = "/".to_owned();
        proof {
            reveal_strlit("/");
            assert(root@ =~= seq!['/']);
            lemma_texts_push(out@, root);
        }
        out.push(root);
        pos = 1;
        leading = false;
        assert(texts(out@) =~= seq![seq!['/']]);
    }
    let mut done = false;
    while !done
        invariant
            chars@ == path@,
            n == path@.len(),
            pos <= n,
            !done ==> components(path@) == texts(out@) + components_from(
                path@,
                pos as int,
                leading,
            ),
            done ==> components(path@) == texts(out@),
        decreases n - pos + (if done { 0int } else { 1int }),
    {
        let mut k: usize = pos;
        while k < n && chars[k] != '/'
            invariant
                chars@ == path@,
                n == path@.len(),
                pos <= k <= n,
                next_slash(path@, pos as int) == next_slash(path@, k as int),
            decreases n - k,
        {
            k = k + 1;
        }
        let piece = path.substring_char(pos, k);
        let keep = k > pos && (leading || !(k - pos == 1 && chars[pos] == '.'));
        proof {
            if k - pos == 1 && chars[pos as int] == '.' {
                assert(piece@ =~= seq!['.']);
            }
            if piece@ == seq!['.'] {
                assert(piece@.len() == 1);
                assert(piece@[0] == '.');
            }
            assert(keep == keeps_piece(piece@, leading));
        }
        let ghost before = texts(out@);
        if keep {
            let owned = piece.to_owned();
            proof {
                lemma_texts_push(out@, owned);
            }
            out.push(owned);
            assert(texts(out@) =~= before + seq![piece@]);
        }
        if k < n {
            proof {
                let rest = components_from(path@, k + 1, false);
                let head = if keep {
                    seq![piece@]
                } else {
                    seq![]
                };
                assert(before + (head + rest) =~= (before + head) + rest);
            }
            pos = k + 1;
            leading = false;
        } else {
            done = true;
        }
    }
    out
}

/// Whether the strings of `base` begin those of `full`.
pub fn begins_with(full: &Vec<String>, base: &Vec<String>) -> (r: bool)
    ensures
        r == texts(base@).is_prefix_of(texts(full@)),
{
    if base.len() > full.len() {
        return false;
    }
    let mut i: usize = 0;
    while i < base.len()
        invariant
            i <= base.len() <= full.len(),
            forall|k: int| 0 <= k < i ==> texts(base@)[k] == texts(full@)[k],
        decreases base.len() - i,
    {
        if base[i] != full[i] {
            assert(texts(base@)[i as int] != texts(full@)[i as int]);
            return false;
        }
        i = i + 1;
    }
    assert(texts(base@) =~= texts(full@).subrange(0, base.len() as int));
    true
}

/// Whether `path` is `base` or lies below it, component by component.
pub fn path_starts_with(path: &str, base: &str) -> (r: bool)
    ensures
        r == lies_under(path@, base@),
{
    let p = split_components(path);
    let b = split_components(base);
    begins_with(&p, &b)
}

/// The strings of `parts` from index `from` on, joined by separators.
pub fn join_components(parts: &Vec<String>, from: usize) -> (r: String)
    requires
        from <= parts.len(),
    ensures
        r@ == slash_joined(texts(parts@).skip(from as int)),
{
    let mut out = String::new();
    let mut i: usize = from;
    let ghost items = texts(parts@).skip(from as int);
    assert(items.take(0) =~= Seq::<Seq<char>>::empty());
    while i < parts.len()
        invariant
            from <= i <= parts.len(),
            items == texts(parts@).skip(from as int),
            out@ == slash_joined(items.take(i - from)),
        decreases parts.len() - i,
    {
        let ghost so_far = items.take(i - from);
        let ghost next = items.take(i - from + 1);
        proof {
            reveal_strlit("/");
            assert(next.drop_last() =~= so_far);
            assert(next.last() == parts@[i as int]@);
        }
        if i > from {
            out.append("/");
            assert(out@ =~= slash_joined(so_far) + seq!['/']);
        }
        out.append(parts[i].as_str());
        i = i + 1;
    }
    assert(items.take(parts.len() - from) =~= items);
    out
}

/// `rel` adjoined to `base`.
pub fn join_path(base: &str, rel: &str) -> (r: String)
    ensures
        r@ == joined_path(base@, rel@),
{
    let r = chars_of(rel);
    if r.len() > 0 && r[0] == '/' {
        return rel.to_owned();
    }
    let b = chars_of(base);
    let mut out = base.to_owned();
    if b.len() > 0 && b[b.len() - 1] != '/' {
        proof {
            reveal_strlit("/");
        }
        out.append("/");
        assert(out@ =~= base@ + seq!['/']);
    }
    out.append(rel);
    out
}

/// `path` moved from below `from` to below `to`, or nothing where `path`
/// does not lie under `from`.
pub fn rebase(path: &str, from: &str, to: &str) -> (r: Option<String>)
    ensures
        r is Some <==> lies_under(path@, from@),
        r matches Some(d) ==> d@ == rebased(path@, from@, to@),
{
    let p = split_components(path);
    let f = split_components(from);
    if !begins_with(&p, &f) {
        return None;
    }
    let rel = join_components(&p, f.len());
    Some(join_path(to, rel.as_str()))
}

/// The last component of a path where it names a file or directory.
pub fn file_name(path: &str) -> (r: Option<String>)
    ensures
        r is Some <==> file_name_of(path@) is Some,
        r matches Some(name) ==> Some(name@) == file_name_of(path@),
{
    let mut parts = split_components(path);
    match parts.pop() {
        None => None,
        Some(last) => {
            proof {
                reveal_strlit("/");
                reveal_strlit(".");
                reveal_strlit("..");
                assert("/"@ =~= seq!['/']);
                assert("."@ =~= seq!['.']);
                assert(".."@ =~= seq!['.', '.']);
                assert(last@ == components(path@).last());
            }
            if str_eq(last.as_str(), "/") || str_eq(last.as_str(), ".") || str_eq(
                last.as_str(),
                "..",
            ) {
                None
            } else {
                Some(last)
            }
        },
    }
}

/// The extension of a file name.
pub fn name_extension(name: &str) -> (r: Option<String>)
    ensures
        r is Some <==> extension_of_name(name@) is Some,
        r matches Some(e) ==> Some(e@) == extension_of_name(name@),
{
    let chars = chars_of(name);
    let n = chars.len();
    let mut d: usize = n;
    while d > 0 && chars[d - 1] != '.'
        invariant
            chars@ == name@,
            n == name@.len(),
            d <= n,
            last_dot(name@, n as int) == last_dot(name@, d as int),
        decreases d,
    {
        d = d - 1;
    }
    if d <= 1 {
        None
    } else {
        Some(name.substring_char(d, n).to_owned())
    }
}

/// The extension of the file that a path names.
pub fn extension(path: &str) -> (r: Option<String>)
    ensures
        r is Some <==> extension_of(path@) is Some,
        r matches Some(e) ==> Some(e@) == extension_of(path@),
{
    match file_name(path) {
        Some(name) => name_extension(name.as_str()),
        None => None,
    }
}

} // verus!
