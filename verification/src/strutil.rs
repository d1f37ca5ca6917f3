//! Verified helpers for the character-level string processing that the rest
//! of the crate builds on: prefix tests, substring search, splitting,
//! trimming and decimal/hex rendering.

use vstd::prelude::*;
use vstd::string::*;

verus! {

/// `p` is a prefix of `s`.
pub open spec fn starts_with_spec(s: Seq<char>, p: Seq<char>) -> bool {
    p.len() <= s.len() && s.subrange(0, p.len() as int) == p
}

/// `p` occurs in `s` at position `i`.
pub open spec fn match_at(s: Seq<char>, p: Seq<char>, i: int) -> bool {
    0 <= i && i + p.len() <= s.len() && s.subrange(i, i + p.len() as int) == p
}

/// `p` occurs somewhere in `s`.
pub open spec fn contains_spec(s: Seq<char>, p: Seq<char>) -> bool {
    exists|i: int| match_at(s, p, i)
}

pub fn str_starts_with(s: &str, p: &str) -> (b: bool)
    ensures
        b == starts_with_spec(s@, p@),
{
    let sn = s.unicode_len();
    let pn = p.unicode_len();
    if pn > sn {
        return false;
    }
    let mut i: usize = 0;
    while i < pn
        invariant
            0 <= i <= pn <= sn,
            sn == s@.len(),
            pn == p@.len(),
            forall|j: int| 0 <= j < i ==> s@[j] == p@[j],
        decreases pn - i,
    {
        if s.get_char(i) != p.get_char(i) {
            assert(s@[i as int] != p@[i as int]);
            assert(!starts_with_spec(s@, p@)) by {
                if s@.subrange(0, pn as int) == p@ {
                    assert(s@.subrange(0, pn as int)[i as int] == p@[i as int]);
                }
            }
            return false;
        }
        i = i + 1;
    }
    assert(s@.subrange(0, pn as int) =~= p@);
    true
}

pub fn str_eq(a: &str, b: &str) -> (r: bool)
    ensures
        r == (a@ == b@),
{
    let x = String::from_str(a);
    let y = String::from_str(b);
    x == y
}

/// Whether `p` occurs in `s` at position `i`.
pub fn match_at_exec(s: &str, p: &str, i: usize) -> (b: bool)
    ensures
        b == match_at(s@, p@, i as int),
{
    let sn = s.unicode_len();
    let pn = p.unicode_len();
    if pn > sn || i > sn - pn {
        assert(!match_at(s@, p@, i as int));
        return false;
    }
    let mut j: usize = 0;
    while j < pn
        invariant
            0 <= j <= pn,
            i + pn <= sn,
            sn == s@.len(),
            pn == p@.len(),
            forall|k: int| 0 <= k < j ==> s@[i + k] == p@[k],
        decreases pn - j,
    {
        if s.get_char(i + j) != p.get_char(j) {
            assert(s@[i + j as int] != p@[j as int]);
            assert(!match_at(s@, p@, i as int)) by {
                if s@.subrange(i as int, i + pn as int) == p@ {
                    assert(s@.subrange(i as int, i + pn as int)[j as int] == p@[j as int]);
                }
            }
            return false;
        }
        j = j + 1;
    }
    assert(s@.subrange(i as int, i + pn as int) =~= p@);
    true
}

/// Whether `p` occurs anywhere in `s`.
pub fn str_contains(s: &str, p: &str) -> (b: bool)
    ensures
        b == contains_spec(s@, p@),
{
    let sn = s.unicode_len();
    let pn = p.unicode_len();
    if pn == 0 {
        assert(match_at(s@, p@, 0)) by {
            assert(s@.subrange(0, 0) =~= p@);
        }
        return true;
    }
    let mut i: usize = 0;
    while i < sn
        invariant
            0 <= i <= sn,
            sn == s@.len(),
            pn == p@.len(),
            pn > 0,
            forall|k: int| 0 <= k < i ==> !match_at(s@, p@, k),
        decreases sn - i,
    {
        if match_at_exec(s, p, i) {
            return true;
        }
        i = i + 1;
    }
    assert(forall|k: int| match_at(s@, p@, k) ==> 0 <= k < s@.len());
    false
}

/// The views of a sequence of strings.
pub open spec fn str_views(v: Seq<String>) -> Seq<Seq<char>> {
    v.map_values(|x: String| x@)
}

/// Whether one of the strings in `v` reads `x`.
pub fn vec_contains_str(v: &Vec<String>, x: &str) -> (b: bool)
    ensures
        b == str_views(v@).contains(x@),
{
    let n = v.len();
    let mut i: usize = 0;
    while i < n
        invariant
            0 <= i <= n,
            n == v@.len(),
            forall|j: int| 0 <= j < i ==> str_views(v@)[j] != x@,
        decreases n - i,
    {
        if str_eq(v[i].as_str(), x) {
            assert(str_views(v@)[i as int] == x@);
            return true;
        }
        i = i + 1;
    }
    assert(forall|j: int| 0 <= j < str_views(v@).len() ==> str_views(v@)[j] != x@);
    false
}

/// The segments of `s` between non-overlapping leftmost occurrences of
/// `sep`, in order.  Splitting never yields fewer than one segment.
pub open spec fn split_spec(s: Seq<char>, sep: Seq<char>) -> Seq<Seq<char>>
    recommends
        sep.len() > 0,
    decreases s.len(),
{
    if s.len() == 0 {
        seq![Seq::<char>::empty()]
    } else if sep.len() > 0 && starts_with_spec(s, sep) {
        seq![Seq::<char>::empty()] + split_spec(s.subrange(sep.len() as int, s.len() as int), sep)
    } else {
        let rest = split_spec(s.subrange(1, s.len() as int), sep);
        seq![seq![s[0]] + rest[0]] + rest.subrange(1, rest.len() as int)
    }
}

pub proof fn lemma_split_spec_len(s: Seq<char>, sep: Seq<char>)
    ensures
        split_spec(s, sep).len() >= 1,
    decreases s.len(),
{
    if s.len() == 0 {
    } else if sep.len() > 0 && starts_with_spec(s, sep) {
        lemma_split_spec_len(s.subrange(sep.len() as int, s.len() as int), sep);
    } else {
        lemma_split_spec_len(s.subrange(1, s.len() as int), sep);
    }
}

pub fn split_str(s: &str, sep: &str) -> (r: Vec<String>)
    requires
        sep@.len() > 0,
    ensures
        str_views(r@) == split_spec(s@, sep@),
{
    let sn = s.unicode_len();
    let sepn = sep.unicode_len();
    let mut out: Vec<String> = Vec::new();
    let mut cur: String = String::new();
    let mut i: usize = 0;
    proof {
        lemma_split_spec_len(s@, sep@);
        assert(s@.subrange(0, sn as int) =~= s@);
        let sf = split_spec(s@, sep@);
        assert(str_views(out@) =~= Seq::<Seq<char>>::empty());
        assert(cur@ + sf[0] =~= sf[0]);
        assert(split_spec(s@, sep@) =~= str_views(out@) + seq![cur@ + sf[0]] + sf.subrange(
            1,
            sf.len() as int,
        ));
    }
    while i < sn
        invariant
            0 <= i <= sn,
            sn == s@.len(),
            sepn == sep@.len(),
            sepn > 0,
            split_spec(s@.subrange(i as int, sn as int), sep@).len() >= 1,
            split_spec(s@, sep@) == str_views(out@) + seq![
                cur@ + split_spec(s@.subrange(i as int, sn as int), sep@)[0],
            ] + split_spec(s@.subrange(i as int, sn as int), sep@).subrange(
                1,
                split_spec(s@.subrange(i as int, sn as int), sep@).len() as int,
            ),
        decreases sn - i,
    {
        let ghost tail = s@.subrange(i as int, sn as int);
        let ghost sf = split_spec(tail, sep@);
        if sepn <= sn - i && match_at_exec(s, sep, i) {
            let ghost tail2 = s@.subrange(i + sepn as int, sn as int);
            proof {
                assert(tail.subrange(0, sepn as int) =~= s@.subrange(i as int, i + sepn as int));
                assert(starts_with_spec(tail, sep@));
                assert(tail.subrange(sepn as int, tail.len() as int) =~= tail2);
                assert(sf == seq![Seq::<char>::empty()] + split_spec(tail2, sep@));
                lemma_split_spec_len(tail2, sep@);
            }
            out.push(cur);
            cur = String::new();
            i = i + sepn;
            proof {
                let sf2 = split_spec(tail2, sep@);
                assert(sf[0] == Seq::<char>::empty());
                assert(str_views(out@) =~= str_views(out@.drop_last()).push(out@.last()@));
                assert(sf.subrange(1, sf.len() as int) =~= sf2);
                assert(split_spec(s@, sep@) =~= str_views(out@) + seq![
                    cur@ + sf2[0],
                ] + sf2.subrange(1, sf2.len() as int));
            }
        } else {
            let c = s.get_char(i);
            let ghost tail2 = s@.subrange(i + 1 as int, sn as int);
            proof {
                assert(tail.len() > 0);
                assert(tail[0] == s@[i as int]);
                if sepn <= tail.len() && starts_with_spec(tail, sep@) {
                    assert(tail.subrange(0, sepn as int) =~= s@.subrange(
                        i as int,
                        i + sepn as int,
                    ));
                    assert(match_at(s@, sep@, i as int));
                }
                assert(!starts_with_spec(tail, sep@));
                assert(tail.subrange(1, tail.len() as int) =~= tail2);
                lemma_split_spec_len(tail2, sep@);
            }
            let ghost cur0 = cur@;
            cur.push(c);
            i = i + 1;
            proof {
                let sf2 = split_spec(tail2, sep@);
                assert(sf == seq![seq![tail[0]] + sf2[0]] + sf2.subrange(1, sf2.len() as int));
                assert(sf[0] == seq![tail[0]] + sf2[0]);
                assert(cur@ + sf2[0] =~= cur0 + sf[0]);
                assert(sf.subrange(1, sf.len() as int) =~= sf2.subrange(1, sf2.len() as int));
                assert(split_spec(s@, sep@) =~= str_views(out@) + seq![
                    cur@ + sf2[0],
                ] + sf2.subrange(1, sf2.len() as int));
            }
        }
    }
    proof {
        assert(s@.subrange(sn as int, sn as int) =~= Seq::<char>::empty());
        let sf = split_spec(s@.subrange(sn as int, sn as int), sep@);
        assert(sf =~= seq![Seq::<char>::empty()]);
    }
    out.push(cur);
    proof {
        assert(str_views(out@) =~= str_views(out@.drop_last()).push(out@.last()@));
        assert(str_views(out@) =~= split_spec(s@, sep@));
    }
    out
}

/// A non-empty key occurring in `s` at position `i`.
pub open spec fn key_match_at(s: Seq<char>, i: int) -> spec_fn(Seq<char>) -> bool {
    |key: Seq<char>| key.len() > 0 && match_at(s, key, i)
}

/// The segments of `s` from position `i` on, cut at each leftmost
/// occurrence of any key, earlier keys taking precedence at equal
/// positions.
pub open spec fn split_keys_from(s: Seq<char>, keys: Seq<Seq<char>>, i: int) -> Seq<Seq<char>>
    decreases s.len() - i,
{
    if i < 0 || i >= s.len() {
        seq![Seq::<char>::empty()]
    } else {
        let k = crate::entities::first_where(keys, key_match_at(s, i));
        if k != -1 && 0 <= k < keys.len() && keys[k].len() > 0 && i + keys[k].len() <= s.len() {
            seq![Seq::<char>::empty()] + split_keys_from(s, keys, i + keys[k].len())
        } else {
            let rest = split_keys_from(s, keys, i + 1);
            seq![seq![s[i]] + rest[0]] + rest.subrange(1, rest.len() as int)
        }
    }
}

pub proof fn lemma_split_keys_len(s: Seq<char>, keys: Seq<Seq<char>>, i: int)
    ensures
        split_keys_from(s, keys, i).len() >= 1,
    decreases s.len() - i,
{
    if i < 0 || i >= s.len() {
    } else {
        let k = crate::entities::first_where(keys, key_match_at(s, i));
        if k != -1 && 0 <= k < keys.len() && keys[k].len() > 0 && i + keys[k].len() <= s.len() {
            lemma_split_keys_len(s, keys, i + keys[k].len());
        } else {
            lemma_split_keys_len(s, keys, i + 1);
        }
    }
}

/// The first key matching at position `i`.
fn find_key_at(s: &str, keys: &Vec<String>, i: usize) -> (r: Option<usize>)
    ensures
        match r {
            Some(k) => k < keys@.len() && crate::entities::first_where(
                str_views(keys@),
                key_match_at(s@, i as int),
            ) == k as int && keys@[k as int]@.len() > 0 && i + keys@[k as int]@.len() <= s@.len(),
            None => crate::entities::first_where(str_views(keys@), key_match_at(s@, i as int))
                == -1,
        },
{
    let n = keys.len();
    let mut k: usize = 0;
    while k < n
        invariant
            0 <= k <= n,
            n == keys@.len(),
            forall|j: int| 0 <= j < k ==> !key_match_at(s@, i as int)(str_views(keys@)[j]),
        decreases n - k,
    {
        if keys[k].as_str().unicode_len() > 0 && match_at_exec(s, keys[k].as_str(), i) {
            proof {
                crate::entities::lemma_first_where_is(
                    str_views(keys@),
                    key_match_at(s@, i as int),
                    k as int,
                );
            }
            return Some(k);
        }
        k = k + 1;
    }
    proof {
        crate::entities::lemma_first_where(str_views(keys@), key_match_at(s@, i as int));
    }
    None
}

/// Splits `s` at every occurrence of any of the keys.
pub fn split_at_keys(s: &str, keys: &Vec<String>) -> (r: Vec<String>)
    ensures
        str_views(r@) == split_keys_from(s@, str_views(keys@), 0),
{
    let ghost kv = str_views(keys@);
    let sn = s.unicode_len();
    let mut out: Vec<String> = Vec::new();
    let mut cur: String = String::new();
    let mut i: usize = 0;
    proof {
        lemma_split_keys_len(s@, kv, 0);
        let sf = split_keys_from(s@, kv, 0);
        assert(str_views(out@) =~= Seq::<Seq<char>>::empty());
        assert(cur@ + sf[0] =~= sf[0]);
        assert(split_keys_from(s@, kv, 0) =~= str_views(out@) + seq![cur@ + sf[0]] + sf.subrange(
            1,
            sf.len() as int,
        ));
    }
    while i < sn
        invariant
            0 <= i <= sn,
            sn == s@.len(),
            kv == str_views(keys@),
            split_keys_from(s@, kv, i as int).len() >= 1,
            split_keys_from(s@, kv, 0) == str_views(out@) + seq![
                cur@ + split_keys_from(s@, kv, i as int)[0],
            ] + split_keys_from(s@, kv, i as int).subrange(
                1,
                split_keys_from(s@, kv, i as int).len() as int,
            ),
        decreases sn - i,
    {
        let ghost sf = split_keys_from(s@, kv, i as int);
        match find_key_at(s, keys, i) {
            Some(k) => {
                let klen = keys[k].as_str().unicode_len();
                proof {
                    assert(sf == seq![Seq::<char>::empty()] + split_keys_from(
                        s@,
                        kv,
                        i + klen,
                    ));
                    lemma_split_keys_len(s@, kv, i + klen);
                }
                out.push(cur);
                cur = String::new();
                i = i + klen;
                proof {
                    let sf2 = split_keys_from(s@, kv, i as int);
                    assert(sf[0] == Seq::<char>::empty());
                    assert(str_views(out@) =~= str_views(out@.drop_last()).push(out@.last()@));
                    assert(sf.subrange(1, sf.len() as int) =~= sf2);
                    assert(split_keys_from(s@, kv, 0) =~= str_views(out@) + seq![
                        cur@ + sf2[0],
                    ] + sf2.subrange(1, sf2.len() as int));
                }
            },
            None => {
                let c = s.get_char(i);
                let ghost cur0 = cur@;
                proof {
                    lemma_split_keys_len(s@, kv, i + 1);
                }
                cur.push(c);
                i = i + 1;
                proof {
                    let sf2 = split_keys_from(s@, kv, i as int);
                    assert(sf == seq![seq![s@[i - 1]] + sf2[0]] + sf2.subrange(
                        1,
                        sf2.len() as int,
                    ));
                    assert(sf[0] == seq![s@[i - 1]] + sf2[0]);
                    assert(cur@ + sf2[0] =~= cur0 + sf[0]);
                    assert(sf.subrange(1, sf.len() as int) =~= sf2.subrange(1, sf2.len() as int));
                    assert(split_keys_from(s@, kv, 0) =~= str_views(out@) + seq![
                        cur@ + sf2[0],
                    ] + sf2.subrange(1, sf2.len() as int));
                }
            },
        }
    }
    proof {
        let sf = split_keys_from(s@, kv, sn as int);
        assert(sf =~= seq![Seq::<char>::empty()]);
    }
    out.push(cur);
    proof {
        assert(str_views(out@) =~= str_views(out@.drop_last()).push(out@.last()@));
        assert(str_views(out@) =~= split_keys_from(s@, kv, 0));
    }
    out
}

/// The whitespace characters the trimming recognises.
pub open spec fn is_space(c: char) -> bool {
    c == ' ' || c == '\t' || c == '\r' || c == '\n'
}

fn is_space_char(c: char) -> (r: bool)
    ensures
        r == is_space(c),
{
    c == ' ' || c == '\t' || c == '\r' || c == '\n'
}

pub open spec fn trim_left_spec(s: Seq<char>) -> Seq<char>
    decreases s.len(),
{
    if s.len() > 0 && is_space(s[0]) {
        trim_left_spec(s.drop_first())
    } else {
        s
    }
}

pub open spec fn trim_right_spec(s: Seq<char>) -> Seq<char>
    decreases s.len(),
{
    if s.len() > 0 && is_space(s[s.len() - 1]) {
        trim_right_spec(s.drop_last())
    } else {
        s
    }
}

/// Leading and trailing whitespace removed.
pub open spec fn trim_spec(s: Seq<char>) -> Seq<char> {
    trim_right_spec(trim_left_spec(s))
}

proof fn lemma_trim_left_at(s: Seq<char>, a: int)
    requires
        0 <= a <= s.len(),
        forall|j: int| 0 <= j < a ==> is_space(s[j]),
        a == s.len() || !is_space(s[a]),
    ensures
        trim_left_spec(s) == s.subrange(a, s.len() as int),
    decreases a,
{
    if a == 0 {
        assert(s.subrange(0, s.len() as int) =~= s);
    } else {
        assert(is_space(s[0]));
        let t = s.drop_first();
        assert(forall|j: int| 0 <= j < a - 1 ==> is_space(t[j]));
        assert(a - 1 == t.len() || !is_space(t[a - 1]));
        lemma_trim_left_at(t, a - 1);
        assert(t.subrange(a - 1, t.len() as int) =~= s.subrange(a, s.len() as int));
    }
}

proof fn lemma_trim_right_at(s: Seq<char>, b: int)
    requires
        0 <= b <= s.len(),
        forall|j: int| b <= j < s.len() ==> is_space(s[j]),
        b == 0 || !is_space(s[b - 1]),
    ensures
        trim_right_spec(s) == s.subrange(0, b),
    decreases s.len(),
{
    if b == s.len() {
        if s.len() > 0 {
            assert(!is_space(s[s.len() - 1]));
        }
        assert(s.subrange(0, s.len() as int) =~= s);
    } else {
        assert(is_space(s[s.len() - 1]));
        let t = s.drop_last();
        assert(forall|j: int| b <= j < t.len() ==> t[j] == s[j]);
        lemma_trim_right_at(t, b);
        assert(t.subrange(0, b) =~= s.subrange(0, b));
    }
}

/// Removes leading and trailing whitespace.
pub fn str_trim(s: &str) -> (r: String)
    ensures
        r@ == trim_spec(s@),
{
    let n = s.unicode_len();
    let mut a: usize = 0;
    while a < n && is_space_char(s.get_char(a))
        invariant
            0 <= a <= n,
            n == s@.len(),
            forall|j: int| 0 <= j < a ==> is_space(s@[j]),
        decreases n - a,
    {
        a = a + 1;
    }
    let mut b: usize = n;
    while b > a && is_space_char(s.get_char(b - 1))
        invariant
            a <= b <= n,
            n == s@.len(),
            forall|j: int| b <= j < n ==> is_space(s@[j]),
        decreases b,
    {
        b = b - 1;
    }
    let r = String::from_str(s.substring_char(a, b));
    proof {
        lemma_trim_left_at(s@, a as int);
        let mid = s@.subrange(a as int, n as int);
        assert(forall|j: int| b - a <= j < mid.len() ==> is_space(mid[j]));
        if b > a {
            assert(!is_space(s@[b - 1]));
            assert(mid[b - a - 1] == s@[b - 1]);
        }
        lemma_trim_right_at(mid, b - a);
        assert(mid.subrange(0, b - a) =~= s@.subrange(a as int, b as int));
    }
    r
}

/// The leading run of non-whitespace characters.
pub open spec fn until_space(t: Seq<char>) -> Seq<char>
    decreases t.len(),
{
    if t.len() == 0 || is_space(t[0]) {
        Seq::<char>::empty()
    } else {
        seq![t[0]] + until_space(t.drop_first())
    }
}

/// The first whitespace-separated token; empty when the text is all
/// whitespace.
pub open spec fn first_token_spec(s: Seq<char>) -> Seq<char> {
    until_space(trim_left_spec(s))
}

proof fn lemma_until_space_at(t: Seq<char>, b: int)
    requires
        0 <= b <= t.len(),
        forall|j: int| 0 <= j < b ==> !is_space(t[j]),
        b == t.len() || is_space(t[b]),
    ensures
        until_space(t) == t.subrange(0, b),
    decreases b,
{
    if b == 0 {
        assert(t.subrange(0, 0) =~= Seq::<char>::empty());
    } else {
        assert(!is_space(t[0]));
        let u = t.drop_first();
        assert(forall|j: int| 0 <= j < b - 1 ==> u[j] == t[j + 1]);
        assert(b - 1 == u.len() || is_space(u[b - 1]));
        lemma_until_space_at(u, b - 1);
        assert(seq![t[0]] + u.subrange(0, b - 1) =~= t.subrange(0, b));
    }
}

/// The first whitespace-separated token of `s`.
pub fn first_token(s: &str) -> (r: String)
    ensures
        r@ == first_token_spec(s@),
{
    let n = s.unicode_len();
    let mut a: usize = 0;
    while a < n && is_space_char(s.get_char(a))
        invariant
            0 <= a <= n,
            n == s@.len(),
            forall|j: int| 0 <= j < a ==> is_space(s@[j]),
        decreases n - a,
    {
        a = a + 1;
    }
    let mut b: usize = a;
    while b < n && !is_space_char(s.get_char(b))
        invariant
            a <= b <= n,
            n == s@.len(),
            forall|j: int| a <= j < b ==> !is_space(s@[j]),
        decreases n - b,
    {
        b = b + 1;
    }
    let r = String::from_str(s.substring_char(a, b));
    proof {
        lemma_trim_left_at(s@, a as int);
        let mid = s@.subrange(a as int, n as int);
        assert(forall|j: int| 0 <= j < b - a ==> !is_space(mid[j]));
        if b < n {
            assert(is_space(mid[b - a]));
        }
        lemma_until_space_at(mid, b - a);
        assert(mid.subrange(0, b - a) =~= s@.subrange(a as int, b as int));
    }
    r
}

/// One trailing carriage return removed, as the line iteration does.
pub open spec fn strip_cr(l: Seq<char>) -> Seq<char> {
    if l.len() > 0 && l[l.len() - 1] == '\r' {
        l.drop_last()
    } else {
        l
    }
}

/// The lines of a text: split at newlines, no line for a trailing newline.
/// A carriage return is removed only as part of a "\r\n" ending, so a final
/// line without a newline keeps a trailing "\r".
pub open spec fn lines_spec(s: Seq<char>) -> Seq<Seq<char>> {
    if s.len() == 0 {
        Seq::<Seq<char>>::empty()
    } else {
        let raw = split_spec(s, seq!['\n']);
        if s[s.len() - 1] == '\n' {
            raw.drop_last().map_values(|l: Seq<char>| strip_cr(l))
        } else {
            raw.drop_last().map_values(|l: Seq<char>| strip_cr(l)).push(raw.last())
        }
    }
}

fn strip_cr_exec(l: &String) -> (r: String)
    ensures
        r@ == strip_cr(l@),
{
    let n = l.as_str().unicode_len();
    if n > 0 && l.as_str().get_char(n - 1) == '\r' {
        let r = String::from_str(l.as_str().substring_char(0, n - 1));
        proof {
            assert(r@ =~= strip_cr(l@));
        }
        r
    } else {
        l.clone()
    }
}

/// Splits a text into its lines.
pub fn split_lines(s: &str) -> (r: Vec<String>)
    ensures
        str_views(r@) == lines_spec(s@),
{
    let n = s.unicode_len();
    if n == 0 {
        let r: Vec<String> = Vec::new();
        proof {
            assert(str_views(r@) =~= lines_spec(s@));
        }
        return r;
    }
    proof {
        reveal_strlit("\n");
        assert("\n"@ =~= seq!['\n']);
    }
    let raw = split_str(s, "\n");
    proof {
        lemma_split_spec_len(s@, seq!['\n']);
    }
    let ends_nl = s.get_char(n - 1) == '\n';
    let m = raw.len() - 1;
    let mut out: Vec<String> = Vec::new();
    let mut i: usize = 0;
    while i < m
        invariant
            0 <= i <= m,
            m + 1 == raw@.len(),
            str_views(raw@) == split_spec(s@, seq!['\n']),
            out@.len() == i,
            forall|j: int| 0 <= j < i ==> out@[j]@ == strip_cr(str_views(raw@)[j]),
        decreases m - i,
    {
        out.push(strip_cr_exec(&raw[i]));
        i = i + 1;
    }
    if !ends_nl {
        out.push(raw[m].clone());
    }
    proof {
        let rawv = split_spec(s@, seq!['\n']);
        if s@[n - 1] == '\n' {
            assert(str_views(out@) =~= rawv.drop_last().map_values(|l: Seq<char>| strip_cr(l)));
        } else {
            assert(str_views(out@) =~= rawv.drop_last().map_values(
                |l: Seq<char>| strip_cr(l),
            ).push(rawv.last()));
        }
        assert(str_views(out@) =~= lines_spec(s@));
    }
    out
}

/// One decimal digit as a character.
pub open spec fn dec_digit(d: nat) -> char {
    if d == 0 {
        '0'
    } else if d == 1 {
        '1'
    } else if d == 2 {
        '2'
    } else if d == 3 {
        '3'
    } else if d == 4 {
        '4'
    } else if d == 5 {
        '5'
    } else if d == 6 {
        '6'
    } else if d == 7 {
        '7'
    } else if d == 8 {
        '8'
    } else {
        '9'
    }
}

/// The decimal rendering of a number, most significant digit first.
pub open spec fn dec_spec(n: nat) -> Seq<char>
    decreases n,
{
    if n < 10 {
        seq![dec_digit(n)]
    } else {
        dec_spec(n / 10) + seq![dec_digit(n % 10)]
    }
}

/// One lowercase hex digit as a character.
pub open spec fn hex_digit(d: nat) -> char {
    if d == 0 {
        '0'
    } else if d == 1 {
        '1'
    } else if d == 2 {
        '2'
    } else if d == 3 {
        '3'
    } else if d == 4 {
        '4'
    } else if d == 5 {
        '5'
    } else if d == 6 {
        '6'
    } else if d == 7 {
        '7'
    } else if d == 8 {
        '8'
    } else if d == 9 {
        '9'
    } else if d == 10 {
        'a'
    } else if d == 11 {
        'b'
    } else if d == 12 {
        'c'
    } else if d == 13 {
        'd'
    } else if d == 14 {
        'e'
    } else {
        'f'
    }
}

pub fn hex_digit_char(d: u8) -> (c: char)
    requires
        d < 16,
    ensures
        c == hex_digit(d as nat),
{
    if d == 0 {
        '0'
    } else if d == 1 {
        '1'
    } else if d == 2 {
        '2'
    } else if d == 3 {
        '3'
    } else if d == 4 {
        '4'
    } else if d == 5 {
        '5'
    } else if d == 6 {
        '6'
    } else if d == 7 {
        '7'
    } else if d == 8 {
        '8'
    } else if d == 9 {
        '9'
    } else if d == 10 {
        'a'
    } else if d == 11 {
        'b'
    } else if d == 12 {
        'c'
    } else if d == 13 {
        'd'
    } else if d == 14 {
        'e'
    } else {
        'f'
    }
}

/// The decimal rendering of a `u64`.
pub fn u64_to_dec(n: u64) -> (r: String)
    ensures
        r@ == dec_spec(n as nat),
    decreases n,
{
    let d: u64 = n % 10;
    let c = if d == 0 {
        '0'
    } else if d == 1 {
        '1'
    } else if d == 2 {
        '2'
    } else if d == 3 {
        '3'
    } else if d == 4 {
        '4'
    } else if d == 5 {
        '5'
    } else if d == 6 {
        '6'
    } else if d == 7 {
        '7'
    } else if d == 8 {
        '8'
    } else {
        '9'
    };
    if n < 10 {
        let mut r = String::new();
        r.push(c);
        assert(r@ =~= dec_spec(n as nat));
        r
    } else {
        let mut r = u64_to_dec(n / 10);
        r.push(c);
        assert(r@ =~= dec_spec(n as nat));
        r
    }
}

} // verus!
