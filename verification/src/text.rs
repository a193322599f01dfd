use vstd::prelude::*;

verus! {

/// The text of each string of `v`.
pub open spec fn views(v: Seq<String>) -> Seq<Seq<char>> {
    v.map_values(|s: String| s@)
}

/// `String::push`, which appends one character at the end of the string.
#[verifier::external_body]
pub(crate) fn push_char(s: &mut String, c: char)
    ensures
        final(s)@ == old(s)@.push(c),
{
    s.push(c);
}

/// `String::pop`, which removes the last character and returns it, or
/// returns `None` and leaves the string as it is when it is empty.
#[verifier::external_body]
pub(crate) fn pop_char(s: &mut String) -> (c: Option<char>)
    ensures
        old(s)@.len() == 0 ==> c is None && final(s)@ == old(s)@,
        old(s)@.len() > 0 ==> c == Some(old(s)@.last()) && final(s)@ == old(s)@.drop_last(),
{
    s.pop()
}

/// The characters of `s`, one by one.
pub fn chars_of(s: &str) -> (v: Vec<char>)
    ensures
        v@ == s@,
{
    let mut v: Vec<char> = Vec::new();
    for c in it: s.chars()
        invariant
            v@ == it.seq().take(it.index() as int),
    {
        v.push(c);
    }
    v
}


/// Whether `c` occurs in `s`.
pub fn has_char(s: &str, c: char) -> (found: bool)
    ensures
        found == s@.contains(c),
{
    let v = chars_of(s);
    let mut i: usize = 0;
    while i < v.len()
        invariant
            v@ == s@,
            i <= v.len(),
            forall|k: int| 0 <= k < i ==> v@[k] != c,
        decreases v.len() - i,
    {
        if v[i] == c {
            assert(s@[i as int] == c);
            return true;
        }
        i = i + 1;
    }
    false
}

/// The string made of the first `n` characters of `v`, in order.
pub fn string_from_chars(v: &Vec<char>, n: usize) -> (s: String)
    requires
        n <= v.len(),
    ensures
        s@ == v@.take(n as int),
{
    let mut s = String::new();
    for i in 0..n
        invariant
            n <= v.len(),
            s@ == v@.take(i as int),
    {
        push_char(&mut s, v[i]);
        assert(v@.take(i + 1) == v@.take(i as int).push(v@[i as int]));
    }
    s
}

/// `path` up to and including its last `/`: the directory above the one
/// `path` names, as the program's key loop finds it by dropping characters from the
/// end until the last one is a `/`.
pub open spec fn parent_of(path: Seq<char>) -> Seq<char>
    decreases path.len(),
{
    if path.len() == 0 || path.last() == '/' {
        path
    } else {
        parent_of(path.drop_last())
    }
}

/// When `path` holds a `/`, what the directory above is: the start of
/// `path`, ending with its last `/`.
pub proof fn lemma_parent_is_prefix(path: Seq<char>)
    requires
        path.contains('/'),
    ensures
        0 < parent_of(path).len() <= path.len(),
        parent_of(path).last() == '/',
        parent_of(path) == path.take(parent_of(path).len() as int),
        forall|k: int| parent_of(path).len() <= k < path.len() ==> path[k] != '/',
    decreases path.len(),
{
    if path.last() != '/' {
        let rest = path.drop_last();
        let k = choose|k: int| 0 <= k < path.len() && path[k] == '/';
        assert(rest[k] == '/');
        lemma_parent_is_prefix(rest);
        assert(rest.take(parent_of(rest).len() as int) =~= path.take(parent_of(rest).len() as int));
        assert forall|j: int| parent_of(path).len() <= j < path.len() implies path[j] != '/' by {
            if j < path.len() - 1 {
                assert(rest[j] == path[j]);
            }
        }
    } else {
        assert(path.take(path.len() as int) =~= path);
    }
}

/// `path` up to and including its last `/`.
pub fn parent_dir(path: &str) -> (parent: String)
    requires
        path@.contains('/'),
    ensures
        parent@ == parent_of(path@),
{
    let v = chars_of(path);
    let mut i: usize = v.len();
    assert(v@.take(i as int) =~= v@);
    while i > 0 && v[i - 1] != '/'
        invariant
            v@ == path@,
            i <= v.len(),
            parent_of(v@) == parent_of(v@.take(i as int)),
            forall|k: int| i <= k < v.len() ==> v@[k] != '/',
        decreases i,
    {
        assert(v@.take(i as int).drop_last() =~= v@.take(i - 1));
        i = i - 1;
    }
    proof {
        if i == 0 {
            let k = choose|k: int| 0 <= k < v@.len() && v@[k] == '/';
            assert(v@[k] != '/');
        }
    }
    assert(v@.take(i as int).last() == '/');
    string_from_chars(&v, i)
}

/// The character of a decimal digit.
pub open spec fn digit_char(d: nat) -> char {
    ((48 + d) as u8) as char
}

/// The decimal writing of `n`, with no leading zero.
pub open spec fn decimal(n: nat) -> Seq<char>
    decreases n,
{
    if n < 10 {
        seq![digit_char(n)]
    } else {
        decimal(n / 10).push(digit_char(n % 10))
    }
}

/// Appends the decimal writing of `n` to `s`.
pub fn push_decimal(s: &mut String, n: u64)
    ensures
        final(s)@ == old(s)@ + decimal(n as nat),
    decreases n,
{
    if n >= 10 {
        push_decimal(s, n / 10);
    }
    let d: u8 = (n % 10) as u8;
    let c: char = (48u8 + d) as char;
    push_char(s, c);
    assert(old(s)@ + decimal(n as nat) == old(s)@ + (if n >= 10 { decimal((n / 10) as nat) } else { Seq::empty() }).push(c));
}


/// `s` with every occurrence of `p` taken out, the occurrences found from
/// left to right without overlapping, as `str::replace(p, "")` does.
pub open spec fn without(s: Seq<char>, p: Seq<char>) -> Seq<char>
    decreases s.len(),
{
    if p.len() == 0 || s.len() < p.len() {
        s
    } else if s.take(p.len() as int) == p {
        without(s.skip(p.len() as int), p)
    } else {
        seq![s[0]] + without(s.skip(1), p)
    }
}

/// Whether `p` occurs in `s` at position `at`.
fn occurs_at(s: &Vec<char>, p: &Vec<char>, at: usize) -> (r: bool)
    requires
        at + p.len() <= s.len(),
    ensures
        r == (s@.skip(at as int).take(p.len() as int) == p@),
{
    let mut k: usize = 0;
    while k < p.len()
        invariant
            at + p.len() <= s.len(),
            k <= p.len(),
            forall|j: int| 0 <= j < k ==> s@[at + j] == p@[j],
        decreases p.len() - k,
    {
        if s[at + k] != p[k] {
            assert(s@.skip(at as int).take(p.len() as int)[k as int] != p@[k as int]);
            return false;
        }
        k = k + 1;
    }
    assert(s@.skip(at as int).take(p.len() as int) =~= p@);
    true
}

/// `s` with every occurrence of `p` taken out (`s.replace(p, "")`).
pub fn remove_all(s: &str, p: &str) -> (r: String)
    ensures
        r@ == without(s@, p@),
{
    let sv = chars_of(s);
    let pv = chars_of(p);
    let mut out = String::new();
    let mut i: usize = 0;
    assert(sv@.skip(0) =~= sv@);
    while i < sv.len()
        invariant
            sv@ == s@,
            pv@ == p@,
            i <= sv.len(),
            out@ + without(sv@.skip(i as int), pv@) == without(sv@, pv@),
        decreases sv.len() - i,
    {
        let rest = Ghost(sv@.skip(i as int));
        if pv.len() > 0 && pv.len() <= sv.len() - i && occurs_at(&sv, &pv, i) {
            assert(rest@.skip(pv@.len() as int) =~= sv@.skip(i + pv@.len()));
            i = i + pv.len();
        } else {
            let ghost out0 = out@;
            push_char(&mut out, sv[i]);
            assert(rest@.skip(1) =~= sv@.skip(i + 1));
            assert(without(rest@, pv@) =~= seq![rest@[0]] + without(rest@.skip(1), pv@)) by {
                if pv.len() == 0 || rest@.len() < pv@.len() {
                    assert(rest@ =~= seq![rest@[0]] + rest@.skip(1));
                }
            }
            assert(out@ + without(rest@.skip(1), pv@) =~= out0 + without(rest@, pv@));
            i = i + 1;
        }
    }
    assert(sv@.skip(i as int) =~= Seq::<char>::empty());
    assert(out@ + without(Seq::<char>::empty(), pv@) =~= out@);
    out
}

} // verus!
