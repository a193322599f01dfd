use vstd::prelude::*;
use vstd::multiset::Multiset;
use vstd::utf8::encode_utf8;
use crate::text::{push_char, remove_all, views, without};

verus! {

broadcast use vstd::seq_lib::group_to_multiset_ensures;

/// Lexicographic order on byte strings: the order of `String`'s `Ord`.
pub open spec fn bytes_le(a: Seq<u8>, b: Seq<u8>) -> bool
    decreases a.len(),
{
    if a.len() == 0 {
        true
    } else if b.len() == 0 {
        false
    } else if a[0] != b[0] {
        a[0] < b[0]
    } else {
        bytes_le(a.drop_first(), b.drop_first())
    }
}

/// `a` comes no later than `b` when their UTF-8 bytes are compared.
pub open spec fn path_le(a: Seq<char>, b: Seq<char>) -> bool {
    bytes_le(encode_utf8(a), encode_utf8(b))
}

/// The strings of `v` are in ascending byte order.
pub open spec fn is_sorted(v: Seq<String>) -> bool {
    forall|i: int, j: int| 0 <= i < j < v.len() ==> path_le(#[trigger] v[i]@, #[trigger] v[j]@)
}

/// Any two byte strings are ordered one way or the other.
pub proof fn lemma_bytes_le_total(a: Seq<u8>, b: Seq<u8>)
    ensures
        bytes_le(a, b) || bytes_le(b, a),
    decreases a.len(),
{
    if a.len() > 0 && b.len() > 0 && a[0] == b[0] {
        lemma_bytes_le_total(a.drop_first(), b.drop_first());
    }
}

/// The byte order is transitive.
pub proof fn lemma_bytes_le_transitive(a: Seq<u8>, b: Seq<u8>, c: Seq<u8>)
    requires
        bytes_le(a, b),
        bytes_le(b, c),
    ensures
        bytes_le(a, c),
    decreases a.len(),
{
    if a.len() > 0 && b.len() > 0 && c.len() > 0 && a[0] == b[0] && b[0] == c[0] {
        lemma_bytes_le_transitive(a.drop_first(), b.drop_first(), c.drop_first());
    }
}

/// Two byte strings each no later than the other are equal.
pub proof fn lemma_bytes_le_antisymmetric(a: Seq<u8>, b: Seq<u8>)
    requires
        bytes_le(a, b),
        bytes_le(b, a),
    ensures
        a == b,
    decreases a.len(),
{
    if a.len() > 0 && b.len() > 0 {
        lemma_bytes_le_antisymmetric(a.drop_first(), b.drop_first());
        assert(a =~= seq![a[0]] + a.drop_first());
        assert(b =~= seq![b[0]] + b.drop_first());
    }
}

/// Every byte string is no later than itself.
pub proof fn lemma_bytes_le_reflexive(a: Seq<u8>)
    ensures
        bytes_le(a, a),
    decreases a.len(),
{
    if a.len() > 0 {
        lemma_bytes_le_reflexive(a.drop_first());
    }
}

/// Paths no later than each other are the same path.
pub proof fn lemma_path_le_antisymmetric(a: Seq<char>, b: Seq<char>)
    requires
        path_le(a, b),
        path_le(b, a),
    ensures
        a == b,
{
    lemma_bytes_le_antisymmetric(encode_utf8(a), encode_utf8(b));
    vstd::utf8::encode_utf8_decode_utf8(a);
    vstd::utf8::encode_utf8_decode_utf8(b);
}

/// The order of a listing does not depend on the order in which the paths
/// came: two sorted lists of the same paths are the same list.
pub proof fn lemma_sorted_listing_unique(a: Seq<String>, b: Seq<String>)
    requires
        is_sorted(a),
        is_sorted(b),
        views(a).to_multiset() == views(b).to_multiset(),
    ensures
        views(a) == views(b),
    decreases a.len(),
{
    let va = views(a);
    let vb = views(b);
    assert(va.len() == vb.len()) by {
        assert(va.to_multiset().len() == vb.to_multiset().len());
    }
    if a.len() > 0 {
        assert(va.to_multiset().count(vb[0]) > 0) by {
            assert(vb.contains(vb[0]));
        }
        assert(va.contains(vb[0]));
        let i = choose|i: int| 0 <= i < va.len() && va[i] == vb[0];
        assert(vb.to_multiset().count(va[0]) > 0) by {
            assert(va.contains(va[0]));
        }
        assert(vb.contains(va[0]));
        let j = choose|j: int| 0 <= j < vb.len() && vb[j] == va[0];
        lemma_bytes_le_reflexive(encode_utf8(va[0]));
        lemma_bytes_le_reflexive(encode_utf8(vb[0]));
        if i > 0 {
            assert(path_le(a[0]@, a[i]@));
        }
        if j > 0 {
            assert(path_le(b[0]@, b[j]@));
        }
        lemma_path_le_antisymmetric(va[0], vb[0]);
        let ra = a.drop_first();
        let rb = b.drop_first();
        assert(views(ra) =~= va.drop_first());
        assert(views(rb) =~= vb.drop_first());
        assert(va.remove(0) =~= va.drop_first());
        assert(vb.remove(0) =~= vb.drop_first());
        assert(is_sorted(ra)) by {
            assert forall|x: int, y: int| 0 <= x < y < ra.len() implies path_le(
                #[trigger] ra[x]@,
                #[trigger] ra[y]@,
            ) by {
                assert(ra[x] == a[x + 1]);
                assert(ra[y] == a[y + 1]);
            }
        }
        assert(is_sorted(rb)) by {
            assert forall|x: int, y: int| 0 <= x < y < rb.len() implies path_le(
                #[trigger] rb[x]@,
                #[trigger] rb[y]@,
            ) by {
                assert(rb[x] == b[x + 1]);
                assert(rb[y] == b[y + 1]);
            }
        }
        lemma_sorted_listing_unique(ra, rb);
        assert(va =~= seq![va[0]] + va.drop_first());
        assert(vb =~= seq![vb[0]] + vb.drop_first());
    } else {
        assert(va =~= vb);
    }
}

/// Compares two byte strings in lexicographic order.
fn bytes_le_exec(a: &[u8], b: &[u8]) -> (r: bool)
    ensures
        r == bytes_le(a@, b@),
{
    let mut i: usize = 0;
    assert(a@.skip(0) =~= a@);
    assert(b@.skip(0) =~= b@);
    while i < a.len() && i < b.len()
        invariant
            i <= a.len(),
            i <= b.len(),
            bytes_le(a@, b@) == bytes_le(a@.skip(i as int), b@.skip(i as int)),
        decreases a.len() - i,
    {
        if a[i] != b[i] {
            return a[i] < b[i];
        }
        assert(a@.skip(i as int).drop_first() =~= a@.skip(i + 1));
        assert(b@.skip(i as int).drop_first() =~= b@.skip(i + 1));
        i = i + 1;
    }
    i == a.len()
}

/// Whether `a` comes no later than `b` in byte order.
fn path_le_exec(a: &String, b: &String) -> (r: bool)
    ensures
        r == path_le(a@, b@),
{
    bytes_le_exec(a.as_str().as_bytes(), b.as_str().as_bytes())
}

/// The same strings, put in ascending byte order.
pub fn sort_paths(v: Vec<String>) -> (r: Vec<String>)
    ensures
        r@.to_multiset() == v@.to_multiset(),
        views(r@).to_multiset() == views(v@).to_multiset(),
        is_sorted(r@),
{
    let mut rest = v;
    let mut out: Vec<String> = Vec::new();
    while rest.len() > 0
        invariant
            out@.to_multiset().add(rest@.to_multiset()) == v@.to_multiset(),
            views(out@).to_multiset().add(views(rest@).to_multiset()) == views(v@).to_multiset(),
            is_sorted(out@),
        decreases rest.len(),
    {
        let ghost rest0 = rest@;
        let x = rest.pop().unwrap();
        assert(rest0 =~= rest@.push(x));
        assert(views(rest0) =~= views(rest@).push(x@));
        let mut p: usize = 0;
        while p < out.len() && path_le_exec(&out[p], &x)
            invariant
                p <= out.len(),
                forall|k: int| 0 <= k < p ==> path_le(#[trigger] out@[k]@, x@),
            decreases out.len() - p,
        {
            p = p + 1;
        }
        proof {
            if p < out.len() {
                lemma_bytes_le_total(encode_utf8(out@[p as int]@), encode_utf8(x@));
                assert forall|k: int| p <= k < out.len() implies path_le(x@, #[trigger] out@[k]@) by {
                    if k > p {
                        lemma_bytes_le_transitive(
                            encode_utf8(x@),
                            encode_utf8(out@[p as int]@),
                            encode_utf8(out@[k]@),
                        );
                    }
                }
            }
        }
        let ghost out0 = out@;
        out.insert(p, x);
        assert(out@ == out0.insert(p as int, x));
        assert(views(out@) =~= views(out0).insert(p as int, x@));
        assert forall|i: int, j: int| 0 <= i < j < out@.len() implies path_le(
            #[trigger] out@[i]@,
            #[trigger] out@[j]@,
        ) by {
            if j < p {
            } else if j == p {
            } else if i < p {
                assert(out@[j] == out0[j - 1]);
                assert(path_le(out0[i]@, x@));
                lemma_bytes_le_transitive(
                    encode_utf8(out0[i]@),
                    encode_utf8(x@),
                    encode_utf8(out0[j - 1]@),
                );
            } else if i == p {
                assert(out@[j] == out0[j - 1]);
            } else {
                assert(out@[i] == out0[i - 1]);
                assert(out@[j] == out0[j - 1]);
            }
        }
    }
    assert(rest@.to_multiset() =~= Multiset::empty());
    assert(views(rest@).to_multiset() =~= Multiset::empty());
    out
}

/// The message shown for a directory with nothing in it.
pub open spec fn empty_dir_message() -> Seq<char> {
    "No files in directory"@
}

/// The lines of a directory panel: the paths of what the directory holds in
/// ascending byte order, a line saying it is empty, or the error met while
/// reading it.
pub fn read(listing: Result<Vec<String>, String>) -> (lines: Vec<String>)
    ensures
        lines@.len() >= 1,
        listing matches Err(message) ==> lines@ == seq![message],
        listing matches Ok(paths) ==> paths@.len() == 0 ==> lines@.len() == 1 && lines@[0]@
            == empty_dir_message(),
        listing matches Ok(paths) ==> paths@.len() > 0 ==> {
            &&& lines@.to_multiset() == paths@.to_multiset()
            &&& views(lines@).to_multiset() == views(paths@).to_multiset()
            &&& is_sorted(lines@)
        },
{
    match listing {
        Ok(paths) => {
            let ghost given = paths@;
            let sorted = sort_paths(paths);
            assert(sorted@.len() == given.len()) by {
                assert(sorted@.to_multiset().len() == given.to_multiset().len());
            }
            if sorted.len() == 0 {
                let mut lines = Vec::new();
                lines.push(String::from_str("No files in directory"));
                proof {
                    reveal_strlit("No files in directory");
                }
                assert(lines@.len() == 1);
                lines
            } else {
                sorted
            }
        },
        Err(message) => {
            let mut lines = Vec::new();
            lines.push(message);
            assert(lines@ =~= seq![message]);
            lines
        },
    }
}


/// The names shown for what a directory holds: each line of its listing
/// with every occurrence of the directory's path and a `/` taken out, in
/// ascending byte order.
pub fn preview_names(lines: Vec<String>, dir: &str) -> (names: Vec<String>)
    ensures
        views(names@).to_multiset() == lines@.map_values(
            |l: String| without(l@, dir@.push('/')),
        ).to_multiset(),
        is_sorted(names@),
{
    let mut prefix = String::from_str(dir);
    push_char(&mut prefix, '/');
    let mut stripped: Vec<String> = Vec::new();
    for i in 0..lines.len()
        invariant
            prefix@ == dir@.push('/'),
            views(stripped@) =~= lines@.take(i as int).map_values(
                |l: String| without(l@, dir@.push('/')),
            ),
    {
        let ghost before = stripped@;
        let name = remove_all(lines[i].as_str(), prefix.as_str());
        stripped.push(name);
        assert(views(stripped@) =~= views(before).push(name@));
        assert(lines@.take(i + 1) =~= lines@.take(i as int).push(lines@[i as int]));
        assert(lines@.take(i + 1).map_values(|l: String| without(l@, dir@.push('/')))
            =~= lines@.take(i as int).map_values(|l: String| without(l@, dir@.push('/'))).push(
            without(lines@[i as int]@, dir@.push('/')),
        ));
    }
    assert(lines@.take(lines.len() as int) =~= lines@);
    sort_paths(stripped)
}

} // verus!
