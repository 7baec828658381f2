//! Names of output files.
use vstd::prelude::*;
use crate::text::{chars_of, push_char, push_str, string_from_chars};

verus! {

/// Position just after the last `/` of a path, or 0 when it has none.
pub open spec fn name_start(p: Seq<char>) -> int
    decreases p.len(),
{
    if p.len() == 0 {
        0
    } else if p.last() == '/' {
        p.len() as int
    } else {
        name_start(p.drop_last())
    }
}

/// Position of the last `.` in `name`, or -1 when it has none.
pub open spec fn last_dot(name: Seq<char>) -> int
    decreases name.len(),
{
    if name.len() == 0 {
        -1
    } else if name.last() == '.' {
        name.len() - 1
    } else {
        last_dot(name.drop_last())
    }
}

/// The path without what ends it after its last component: trailing `/`s and `.` components
/// (a path of one character is kept).
pub open spec fn trim_end(p: Seq<char>) -> Seq<char>
    decreases p.len(),
{
    if p.len() > 1 && (p.last() == '/' || (p.last() == '.' && p[p.len() - 2] == '/')) {
        trim_end(p.drop_last())
    } else {
        p
    }
}

/// The last component of a trimmed path is a file name: not empty, `.` or `..`.
pub open spec fn has_file_name(t: Seq<char>) -> bool {
    let name = t.skip(name_start(t));
    name.len() > 0 && name != seq!['.'] && name != seq!['.', '.']
}

/// A trimmed path whose file name has its extension replaced by `mas` (added when the name
/// has none; a leading dot does not start an extension).
pub open spec fn with_mas(t: Seq<char>) -> Seq<char> {
    let i = name_start(t);
    let d = last_dot(t.skip(i));
    if d > 0 {
        t.take(i + d) + seq!['.', 'm', 'a', 's']
    } else {
        t + seq!['.', 'm', 'a', 's']
    }
}

/// The output path for an input path: the extension of its file name replaced by `mas`,
/// everything after the file name dropped; a path with no file name is returned as it is.
pub open spec fn output_path(p: Seq<char>) -> Seq<char> {
    let t = trim_end(p);
    if has_file_name(t) {
        with_mas(t)
    } else {
        p
    }
}

pub proof fn lemma_trim_end(p: Seq<char>)
    ensures
        trim_end(p).len() <= p.len(),
        trim_end(p) == p.take(trim_end(p).len() as int),
        p.len() > 0 ==> trim_end(p).len() > 0,
    decreases p.len(),
{
    if p.len() > 1 && (p.last() == '/' || (p.last() == '.' && p[p.len() - 2] == '/')) {
        lemma_trim_end(p.drop_last());
        assert(p.drop_last().take(trim_end(p).len() as int) =~= p.take(trim_end(p).len() as int));
    } else {
        assert(p.take(p.len() as int) =~= p);
    }
}

pub proof fn lemma_name_start(p: Seq<char>)
    ensures
        0 <= name_start(p) <= p.len(),
        forall|j: int| name_start(p) <= j < p.len() ==> p[j] != '/',
    decreases p.len(),
{
    if p.len() > 0 && p.last() != '/' {
        lemma_name_start(p.drop_last());
        assert forall|j: int| name_start(p) <= j < p.len() implies p[j] != '/' by {
            if j < p.len() - 1 {
                assert(p.drop_last()[j] == p[j]);
            }
        }
    }
}

pub proof fn lemma_last_dot(name: Seq<char>)
    ensures
        -1 <= last_dot(name) < name.len(),
        last_dot(name) >= 0 ==> name[last_dot(name)] == '.',
        forall|j: int| last_dot(name) < j < name.len() ==> name[j] != '.',
    decreases name.len(),
{
    if name.len() > 0 && name.last() != '.' {
        lemma_last_dot(name.drop_last());
        assert forall|j: int| last_dot(name) < j < name.len() implies name[j] != '.' by {
            if j < name.len() - 1 {
                assert(name.drop_last()[j] == name[j]);
            }
        }
    }
}

/// Characters `0..k` of a character vector as a string.
fn prefix_string(cs: &Vec<char>, k: usize) -> (r: String)
    requires
        k <= cs.len(),
    ensures
        r@ == cs@.take(k as int),
{
    let mut out = String::new();
    let mut j: usize = 0;
    while j < k
        invariant
            j <= k,
            k <= cs.len(),
            out@ == cs@.take(j as int),
        decreases k - j,
    {
        push_char(&mut out, cs[j]);
        assert(cs@.take(j + 1) =~= cs@.take(j as int).push(cs@[j as int]));
        j += 1;
    }
    out
}

/// Length of the trimmed form of a path.
fn trimmed_len(cs: &Vec<char>) -> (r: usize)
    ensures
        r <= cs.len(),
        trim_end(cs@) == cs@.take(r as int),
{
    let ghost p = cs@;
    let mut tl = cs.len();
    assert(p.take(tl as int) =~= p);
    while tl > 1 && (cs[tl - 1] == '/' || (cs[tl - 1] == '.' && cs[tl - 2] == '/'))
        invariant
            tl <= cs.len(),
            p == cs@,
            trim_end(p) == trim_end(p.take(tl as int)),
        decreases tl,
    {
        assert(p.take(tl as int).drop_last() =~= p.take(tl - 1));
        assert(p.take(tl as int).last() == p[tl - 1]);
        assert(p.take(tl as int)[tl - 2] == p[tl - 2]);
        tl -= 1;
    }
    proof {
        if tl > 1 {
            assert(p.take(tl as int).last() == p[tl - 1]);
            assert(p.take(tl as int)[tl - 2] == p[tl - 2]);
        }
    }
    tl
}

/// Where the last component of `cs[0..tl]` starts.
fn file_name_start(cs: &Vec<char>, tl: usize) -> (r: usize)
    requires
        tl <= cs.len(),
    ensures
        r <= tl,
        r == name_start(cs@.take(tl as int)),
{
    let ghost t = cs@.take(tl as int);
    let mut i = tl;
    assert(t.take(i as int) =~= t);
    while i > 0 && cs[i - 1] != '/'
        invariant
            i <= tl,
            tl <= cs.len(),
            t == cs@.take(tl as int),
            name_start(t) == name_start(t.take(i as int)),
        decreases i,
    {
        assert(t.take(i as int).drop_last() =~= t.take(i - 1));
        assert(t.take(i as int).last() == cs@[i - 1]);
        i -= 1;
    }
    proof {
        if i > 0 {
            assert(t.take(i as int).last() == cs@[i - 1]);
        }
    }
    i
}

/// One more than the position of the last `.` of `cs[i..tl]` within it, or 0 when it has none.
fn dot_end(cs: &Vec<char>, i: usize, tl: usize) -> (r: usize)
    requires
        i <= tl <= cs.len(),
    ensures
        r <= tl - i,
        last_dot(cs@.subrange(i as int, tl as int)) == r - 1,
{
    let ghost name = cs@.subrange(i as int, tl as int);
    let n = tl - i;
    let mut d = n;
    assert(name.take(d as int) =~= name);
    while d > 0 && cs[i + d - 1] != '.'
        invariant
            d <= n,
            n == name.len(),
            i + n == tl,
            tl <= cs.len(),
            name == cs@.subrange(i as int, tl as int),
            last_dot(name) == last_dot(name.take(d as int)),
        decreases d,
    {
        assert(name[d - 1] == cs@[i + d - 1]);
        assert(name.take(d as int).drop_last() =~= name.take(d - 1));
        d -= 1;
    }
    proof {
        if d > 0 {
            assert(name[d - 1] == cs@[i + d - 1]);
            assert(name.take(d as int).last() == '.');
        }
    }
    d
}

/// The default output path: the input path with the `.mas` extension.
pub fn default_output_path(input: &str) -> (r: String)
    ensures
        r@ == output_path(input@),
{
    let cs = chars_of(input);
    let ghost p = cs@;
    let tl = trimmed_len(&cs);
    let ghost t = p.take(tl as int);
    let i = file_name_start(&cs, tl);
    let ghost name = t.skip(i as int);
    assert(name =~= p.subrange(i as int, tl as int));
    let n = tl - i;
    if n == 0 || (n == 1 && cs[i] == '.') || (n == 2 && cs[i] == '.' && cs[i + 1] == '.') {
        assert(n == 1 && cs[i as int] == '.' ==> name =~= seq!['.']);
        assert(n == 2 && cs[i as int] == '.' && cs[i + 1] == '.' ==> name =~= seq!['.', '.']);
        return string_from_chars(cs.as_slice());
    }
    assert(name.len() == n);
    assert(name[0] == cs@[i as int]);
    assert(n >= 2 ==> name[1] == cs@[i + 1]);
    assert(name != seq!['.']) by {
        if n == 1 {
            assert(seq!['.'][0] == '.');
        } else {
            assert(seq!['.'].len() == 1);
        }
    }
    assert(name != seq!['.', '.']) by {
        if n == 2 {
            assert(seq!['.', '.'][0] == '.' && seq!['.', '.'][1] == '.');
        } else {
            assert(seq!['.', '.'].len() == 2);
        }
    }
    assert(has_file_name(t));
    let d = dot_end(&cs, i, tl);
    let cut = if d > 1 { i + (d - 1) } else { tl };
    let mut out = prefix_string(&cs, cut);
    assert(d > 1 ==> p.take(cut as int) =~= t.take(i + (d - 1)));
    assert(d <= 1 ==> p.take(cut as int) =~= t);
    push_str(&mut out, ".mas");
    proof {
        reveal_strlit(".mas");
    }
    out
}

/// `i` is where the file name starts when the directory part ends at `i` and no `/` follows.
proof fn lemma_name_start_at(q: Seq<char>, i: int)
    requires
        0 <= i <= q.len(),
        i == 0 || q[i - 1] == '/',
        forall|j: int| i <= j < q.len() ==> q[j] != '/',
    ensures
        name_start(q) == i,
    decreases q.len(),
{
    if q.len() > i {
        let r = q.drop_last();
        assert forall|j: int| i <= j < r.len() implies r[j] != '/' by {
            assert(r[j] == q[j]);
        }
        if i > 0 {
            assert(r[i - 1] == q[i - 1]);
        }
        lemma_name_start_at(r, i);
    }
}

proof fn lemma_name_start_ends_dir(p: Seq<char>)
    ensures
        name_start(p) == 0 || p[name_start(p) - 1] == '/',
    decreases p.len(),
{
    if p.len() > 0 && p.last() != '/' {
        lemma_name_start_ends_dir(p.drop_last());
        lemma_name_start(p.drop_last());
        let k = name_start(p.drop_last());
        if k > 0 {
            assert(p.drop_last()[k - 1] == p[k - 1]);
        }
    }
}

/// The last dot of a name that ends in `.mas` is the one before `mas`.
proof fn lemma_last_dot_mas(x: Seq<char>)
    ensures
        last_dot(x + seq!['.', 'm', 'a', 's']) == x.len(),
{
    let y1 = x + seq!['.'];
    let y2 = x + seq!['.', 'm'];
    let y3 = x + seq!['.', 'm', 'a'];
    let y4 = x + seq!['.', 'm', 'a', 's'];
    assert(last_dot(y1) == x.len());
    assert(y2.drop_last() =~= y1);
    assert(last_dot(y2) == x.len());
    assert(y3.drop_last() =~= y2);
    assert(last_dot(y3) == x.len());
    assert(y4.drop_last() =~= y3);
}

/// `with_mas` of a trimmed path with a file name: the directory part, then the file name up
/// to its extension, then `.mas`.
proof fn lemma_with_mas_shape(t: Seq<char>)
    requires
        has_file_name(t),
    ensures
        ({
            let i = name_start(t);
            exists|stem: Seq<char>| #![trigger t.take(i) + stem]
                stem.len() > 0
                && (forall|j: int| 0 <= j < stem.len() ==> stem[j] != '/')
                && with_mas(t) == t.take(i) + stem + seq!['.', 'm', 'a', 's']
        }),
{
    let i = name_start(t);
    let name = t.skip(i);
    lemma_name_start(t);
    lemma_last_dot(name);
    let d = last_dot(name);
    let stem = if d > 0 { name.take(d) } else { name };
    assert forall|j: int| 0 <= j < stem.len() implies stem[j] != '/' by {
        assert(stem[j] == t[i + j]);
    }
    if d > 0 {
        assert(t.take(i + d) =~= t.take(i) + stem);
    } else {
        assert(t =~= t.take(i) + stem);
    }
    assert(with_mas(t) == t.take(i) + stem + seq!['.', 'm', 'a', 's']);
}

/// A path that ends in a letter is its own trimmed form.
proof fn lemma_trim_end_fixed(q: Seq<char>)
    requires
        q.len() > 0,
        q.last() != '/',
        q.last() != '.',
    ensures
        trim_end(q) == q,
{
}

/// Output paths keep the directory and end in `.mas`: when the input path (without trailing
/// separators and `.` components) ends in a file name, the output path starts with the
/// input's directory part, its file name starts where that of the input does, and it ends
/// with `.mas`.
pub proof fn law_output_path_keeps_directory(p: Seq<char>)
    requires
        has_file_name(trim_end(p)),
    ensures
        ({
            let t = trim_end(p);
            &&& p.take(name_start(t)).is_prefix_of(output_path(p))
            &&& name_start(trim_end(output_path(p))) == name_start(t)
            &&& output_path(p).len() >= 4
            &&& output_path(p).skip(output_path(p).len() - 4) == seq!['.', 'm', 'a', 's']
        }),
{
    let t = trim_end(p);
    let i = name_start(t);
    lemma_trim_end(p);
    lemma_name_start(t);
    lemma_name_start_ends_dir(t);
    lemma_with_mas_shape(t);
    let stem = choose|stem: Seq<char>| #![trigger t.take(i) + stem]
        stem.len() > 0
        && (forall|j: int| 0 <= j < stem.len() ==> stem[j] != '/')
        && with_mas(t) == t.take(i) + stem + seq!['.', 'm', 'a', 's'];
    let out = output_path(p);
    assert(out == with_mas(t));
    assert(out.subrange(0, i) =~= t.take(i));
    assert(p.take(i) =~= t.take(i));
    lemma_trim_end_fixed(out);
    assert forall|j: int| i <= j < out.len() implies out[j] != '/' by {
        if j < i + stem.len() {
            assert(out[j] == stem[j - i]);
        }
    }
    if i > 0 {
        assert(out[i - 1] == t[i - 1]);
    }
    lemma_name_start_at(out, i);
    assert(out.skip(out.len() - 4) =~= seq!['.', 'm', 'a', 's']);
}

/// Computing the output path of an output path changes nothing.
pub proof fn law_output_path_idempotent(p: Seq<char>)
    ensures
        output_path(output_path(p)) == output_path(p),
{
    let t = trim_end(p);
    if has_file_name(t) {
        let i = name_start(t);
        lemma_name_start(t);
        law_output_path_keeps_directory(p);
        lemma_with_mas_shape(t);
        let stem = choose|stem: Seq<char>| #![trigger t.take(i) + stem]
            stem.len() > 0
            && (forall|j: int| 0 <= j < stem.len() ==> stem[j] != '/')
            && with_mas(t) == t.take(i) + stem + seq!['.', 'm', 'a', 's'];
        let out = output_path(p);
        lemma_trim_end_fixed(out);
        let oname = out.skip(i);
        assert(oname =~= stem + seq!['.', 'm', 'a', 's']);
        lemma_last_dot_mas(stem);
        assert(oname.len() >= 5);
        assert(oname != seq!['.']);
        assert(oname != seq!['.', '.']);
        assert(out.take(i + stem.len()) =~= t.take(i) + stem);
    }
}

} // verus!
