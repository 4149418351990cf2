//! String helpers: comparison, prefix and suffix handling, decimal
//! rendering, and sorted-unique insertion, each pinned to a spec function.

use vstd::prelude::*;

verus! {

/// Lexicographic order on character sequences, by Unicode scalar value.
pub open spec fn lex_lt(a: Seq<char>, b: Seq<char>) -> bool
    decreases a.len(),
{
    if b.len() == 0 {
        false
    } else if a.len() == 0 {
        true
    } else if a[0] != b[0] {
        (a[0] as u32) < (b[0] as u32)
    } else {
        lex_lt(a.drop_first(), b.drop_first())
    }
}

/// Whether two strings hold the same characters.
pub fn str_eq(a: &str, b: &str) -> (r: bool)
    ensures
        r == (a@ == b@),
{
    let a_len = a.unicode_len();
    let b_len = b.unicode_len();
    if a_len != b_len {
        return false;
    }
    let mut i: usize = 0;
    while i < a_len
        invariant
            a_len == a@.len(),
            b_len == b@.len(),
            a_len == b_len,
            i <= a_len,
            forall|k: int| 0 <= k < i ==> a@[k] == b@[k],
        decreases a_len - i,
    {
        if a.get_char(i) != b.get_char(i) {
            return false;
        }
        i = i + 1;
    }
    proof {
        assert(a@ =~= b@);
    }
    true
}

proof fn lemma_lex_lt_skip(a: Seq<char>, b: Seq<char>, i: int)
    requires
        0 <= i < a.len(),
        i < b.len(),
        a[i] == b[i],
    ensures
        lex_lt(a.skip(i), b.skip(i)) == lex_lt(a.skip(i + 1), b.skip(i + 1)),
{
    assert(a.skip(i).drop_first() =~= a.skip(i + 1));
    assert(b.skip(i).drop_first() =~= b.skip(i + 1));
    assert(a.skip(i)[0] == a[i]);
    assert(b.skip(i)[0] == b[i]);
}

/// Whether `a` sorts strictly before `b` in lexicographic order.
pub fn str_lt(a: &str, b: &str) -> (r: bool)
    ensures
        r == lex_lt(a@, b@),
{
    let a_len = a.unicode_len();
    let b_len = b.unicode_len();
    let min_len = if a_len < b_len {
        a_len
    } else {
        b_len
    };
    let mut i: usize = 0;
    proof {
        assert(a@.skip(0) =~= a@);
        assert(b@.skip(0) =~= b@);
    }
    while i < min_len
        invariant
            a_len == a@.len(),
            b_len == b@.len(),
            min_len <= a_len,
            min_len <= b_len,
            i <= min_len,
            lex_lt(a@, b@) == lex_lt(a@.skip(i as int), b@.skip(i as int)),
        decreases min_len - i,
    {
        let ca = a.get_char(i);
        let cb = b.get_char(i);
        if ca != cb {
            proof {
                assert(a@.skip(i as int)[0] == a@[i as int]);
                assert(b@.skip(i as int)[0] == b@[i as int]);
            }
            return (ca as u32) < (cb as u32);
        }
        proof {
            lemma_lex_lt_skip(a@, b@, i as int);
        }
        i = i + 1;
    }
    proof {
        if a_len <= b_len {
            assert(a@.skip(i as int).len() == 0);
        } else {
            assert(b@.skip(i as int).len() == 0);
            assert(a@.skip(i as int).len() > 0);
        }
    }
    a_len < b_len
}

/// Whether `pre` is a prefix of `s`.
pub open spec fn has_prefix(s: Seq<char>, pre: Seq<char>) -> bool {
    pre.len() <= s.len() && s.take(pre.len() as int) == pre
}

/// Whether `suf` is a suffix of `s`.
pub open spec fn has_suffix(s: Seq<char>, suf: Seq<char>) -> bool {
    suf.len() <= s.len() && s.skip(s.len() - suf.len()) == suf
}

pub fn str_has_prefix(s: &str, pre: &str) -> (r: bool)
    ensures
        r == has_prefix(s@, pre@),
{
    let s_len = s.unicode_len();
    let p_len = pre.unicode_len();
    if p_len > s_len {
        return false;
    }
    let head = s.substring_char(0, p_len);
    str_eq(head, pre)
}

pub fn str_has_suffix(s: &str, suf: &str) -> (r: bool)
    ensures
        r == has_suffix(s@, suf@),
{
    let s_len = s.unicode_len();
    let f_len = suf.unicode_len();
    if f_len > s_len {
        return false;
    }
    let tail = s.substring_char(s_len - f_len, s_len);
    str_eq(tail, suf)
}

/// `s` without a leading `pre`, when `pre` is a prefix.
pub fn str_strip_prefix<'a>(s: &'a str, pre: &str) -> (r: Option<&'a str>)
    ensures
        has_prefix(s@, pre@) ==> (r is Some && r->0@ == s@.skip(pre@.len() as int)),
        !has_prefix(s@, pre@) ==> r is None,
{
    if str_has_prefix(s, pre) {
        let s_len = s.unicode_len();
        let p_len = pre.unicode_len();
        Some(s.substring_char(p_len, s_len))
    } else {
        None
    }
}

/// `s` without a trailing `suf`, when `suf` is a suffix.
pub fn str_strip_suffix<'a>(s: &'a str, suf: &str) -> (r: Option<&'a str>)
    ensures
        has_suffix(s@, suf@) ==> (r is Some && r->0@ == s@.take(s@.len() - suf@.len())),
        !has_suffix(s@, suf@) ==> r is None,
{
    if str_has_suffix(s, suf) {
        let s_len = s.unicode_len();
        let f_len = suf.unicode_len();
        Some(s.substring_char(0, s_len - f_len))
    } else {
        None
    }
}

/// A string whose characters equal the given string's.
pub fn str_to_string(s: &str) -> (r: String)
    ensures
        r@ == s@,
{
    s.to_owned()
}

/// Inserting a character sequence into a lexicographically sorted sequence
/// without duplicates: the result keeps the order and holds `x` once.
pub open spec fn insert_sorted_unique(s: Seq<Seq<char>>, x: Seq<char>) -> Seq<Seq<char>>
    decreases s.len(),
{
    if s.len() == 0 {
        seq![x]
    } else if x == s[0] {
        s
    } else if lex_lt(x, s[0]) {
        seq![x] + s
    } else {
        seq![s[0]] + insert_sorted_unique(s.drop_first(), x)
    }
}

proof fn lemma_insert_sorted_unique_shift(s: Seq<Seq<char>>, x: Seq<char>, i: int)
    requires
        0 <= i < s.len(),
        x != s[i],
        !lex_lt(x, s[i]),
        insert_sorted_unique(s, x) == s.take(i) + insert_sorted_unique(s.skip(i), x),
    ensures
        insert_sorted_unique(s, x) == s.take(i + 1) + insert_sorted_unique(s.skip(i + 1), x),
{
    let rest = s.skip(i);
    assert(rest[0] == s[i]);
    assert(rest.drop_first() =~= s.skip(i + 1));
    assert(insert_sorted_unique(rest, x) == seq![s[i]] + insert_sorted_unique(s.skip(i + 1), x));
    assert(s.take(i) + (seq![s[i]] + insert_sorted_unique(s.skip(i + 1), x)) =~= s.take(i + 1)
        + insert_sorted_unique(s.skip(i + 1), x));
}

/// Inserts `x` into the sorted, duplicate-free vector `v`, keeping it so.
pub fn vec_insert_sorted_unique(v: &mut Vec<String>, x: String)
    ensures
        final(v).deep_view() == insert_sorted_unique(old(v).deep_view(), x@),
{
    let ghost orig = v.deep_view();
    let mut i: usize = 0;
    proof {
        assert(orig.skip(0) =~= orig);
        assert(orig.take(0) + insert_sorted_unique(orig, x@) =~= insert_sorted_unique(orig, x@));
    }
    loop
        invariant
            orig == old(v).deep_view(),
            i <= v.len(),
            v.deep_view() == orig,
            orig.len() == v@.len(),
            insert_sorted_unique(orig, x@) == orig.take(i as int) + insert_sorted_unique(
                orig.skip(i as int),
                x@,
            ),
        decreases v.len() - i,
    {
        if i == v.len() {
            proof {
                assert(orig.skip(i as int).len() == 0);
                assert(orig.take(i as int) =~= orig);
                assert(orig + seq![x@] =~= orig.push(x@));
            }
            v.push(x);
            proof {
                assert(v.deep_view() =~= orig.push(x@));
            }
            return ;
        }
        proof {
            assert(orig.skip(i as int)[0] == orig[i as int]);
            assert(orig[i as int] == v@[i as int]@);
        }
        if str_eq(v[i].as_str(), x.as_str()) {
            proof {
                assert(insert_sorted_unique(orig.skip(i as int), x@) == orig.skip(i as int));
                assert(orig.take(i as int) + orig.skip(i as int) =~= orig);
            }
            return ;
        }
        if str_lt(x.as_str(), v[i].as_str()) {
            proof {
                assert(insert_sorted_unique(orig.skip(i as int), x@) == seq![x@] + orig.skip(
                    i as int,
                ));
                assert(orig.take(i as int) + (seq![x@] + orig.skip(i as int)) =~= orig.insert(
                    i as int,
                    x@,
                ));
            }
            v.insert(i, x);
            proof {
                assert(v.deep_view() =~= orig.insert(i as int, x@));
            }
            return ;
        }
        proof {
            lemma_insert_sorted_unique_shift(orig, x@, i as int);
        }
        i = i + 1;
    }
}

/// Whether some element of `s` is exactly the character sequence `x`.
pub open spec fn seq_contains_string(s: Seq<Seq<char>>, x: Seq<char>) -> bool {
    exists|k: int| 0 <= k < s.len() && s[k] == x
}

/// Whether the string vector `v` holds the string `x`.
pub fn vec_contains_string(v: &Vec<String>, x: &str) -> (r: bool)
    ensures
        r == seq_contains_string(v.deep_view(), x@),
{
    let mut i: usize = 0;
    while i < v.len()
        invariant
            i <= v.len(),
            v.deep_view().len() == v@.len(),
            forall|k: int| 0 <= k < i ==> v.deep_view()[k] != x@,
        decreases v.len() - i,
    {
        if str_eq(v[i].as_str(), x) {
            assert(v.deep_view()[i as int] == x@);
            return true;
        }
        i = i + 1;
    }
    false
}

/// Percent-encoding of the `+` character: release directory fragments are
/// plain ASCII names apart from the `+` that introduces a revision, which
/// must be escaped in release URLs.
pub open spec fn encode_plus(s: Seq<char>) -> Seq<char>
    decreases s.len(),
{
    if s.len() == 0 {
        Seq::<char>::empty()
    } else {
        (if s[0] == '+' {
            "%2B"@
        } else {
            seq![s[0]]
        }) + encode_plus(s.drop_first())
    }
}

proof fn lemma_encode_plus_snoc(a: Seq<char>, c: char)
    ensures
        encode_plus(a.push(c)) == encode_plus(a) + (if c == '+' {
            "%2B"@
        } else {
            seq![c]
        }),
    decreases a.len(),
{
    let enc_c = if c == '+' {
        "%2B"@
    } else {
        seq![c]
    };
    if a.len() == 0 {
        assert(a.push(c).drop_first() =~= Seq::<char>::empty());
        assert(a.push(c)[0] == c);
        assert(a.push(c).len() == 1);
        assert(encode_plus(a.push(c)) == enc_c + encode_plus(a.push(c).drop_first()));
        assert(encode_plus(a.push(c).drop_first()) =~= Seq::<char>::empty());
        assert(enc_c + Seq::<char>::empty() =~= enc_c);
        assert(encode_plus(a) =~= Seq::<char>::empty());
        assert(Seq::<char>::empty() + enc_c =~= enc_c);
        assert(encode_plus(a.push(c)) =~= encode_plus(a) + enc_c);
    } else {
        assert(a.push(c)[0] == a[0]);
        assert(a.push(c).drop_first() =~= a.drop_first().push(c));
        lemma_encode_plus_snoc(a.drop_first(), c);
        let enc_0 = if a[0] == '+' {
            "%2B"@
        } else {
            seq![a[0]]
        };
        assert(enc_0 + (encode_plus(a.drop_first()) + enc_c) =~= (enc_0 + encode_plus(
            a.drop_first(),
        )) + enc_c);
    }
}

/// Percent-encodes the `+` characters of a string.
pub fn percent_encode_plus(s: &str) -> (r: String)
    ensures
        r@ == encode_plus(s@),
{
    let len = s.unicode_len();
    let mut out = String::new();
    let mut i: usize = 0;
    proof {
        assert(s@.take(0).len() == 0);
        assert(out@ =~= encode_plus(s@.take(0)));
    }
    while i < len
        invariant
            len == s@.len(),
            i <= len,
            out@ == encode_plus(s@.take(i as int)),
        decreases len - i,
    {
        let c = s.get_char(i);
        if c == '+' {
            out.append("%2B");
        } else {
            out.append(s.substring_char(i, i + 1));
            proof {
                assert(s@.subrange(i as int, i as int + 1) =~= seq![s@[i as int]]);
            }
        }
        proof {
            assert(s@.take(i as int).push(s@[i as int]) =~= s@.take(i as int + 1));
            lemma_encode_plus_snoc(s@.take(i as int), s@[i as int]);
        }
        i = i + 1;
    }
    proof {
        assert(s@.take(len as int) =~= s@);
    }
    out
}

/// The index of the last `/` in a path, if any.
pub open spec fn rlast_slash(p: Seq<char>) -> Option<int>
    decreases p.len(),
{
    if p.len() == 0 {
        None
    } else if p.last() == '/' {
        Some(p.len() - 1)
    } else {
        rlast_slash(p.drop_last())
    }
}

/// The parent directory of a path: the text before the last `/`, when that
/// text is non-empty; a path without a directory part has no parent segment.
pub open spec fn path_parent(p: Seq<char>) -> Option<Seq<char>> {
    match rlast_slash(p) {
        Some(i) => if i > 0 {
            Some(p.take(i))
        } else {
            None
        },
        None => None,
    }
}

/// The file name of a path: the non-empty text after the last `/`.
pub open spec fn path_file_name(p: Seq<char>) -> Option<Seq<char>> {
    let tail = match rlast_slash(p) {
        Some(i) => p.skip(i + 1),
        None => p,
    };
    if tail.len() == 0 {
        None
    } else {
        Some(tail)
    }
}

/// Finds the index of the last `/` in a path.
pub fn find_last_slash(p: &str) -> (r: Option<usize>)
    ensures
        match r {
            Some(i) => rlast_slash(p@) == Some(i as int) && i < p@.len(),
            None => rlast_slash(p@) is None,
        },
{
    let len = p.unicode_len();
    let mut i: usize = len;
    proof {
        assert(p@.take(len as int) =~= p@);
    }
    loop
        invariant
            len == p@.len(),
            i <= len,
            rlast_slash(p@) == rlast_slash(p@.take(i as int)),
        decreases i,
    {
        if i == 0 {
            proof {
                assert(p@.take(0).len() == 0);
            }
            return None;
        }
        let c = p.get_char(i - 1);
        proof {
            assert(p@.take(i as int).last() == p@[i as int - 1]);
        }
        if c == '/' {
            return Some(i - 1);
        }
        proof {
            assert(p@.take(i as int).drop_last() =~= p@.take(i as int - 1));
        }
        i = i - 1;
    }
}

/// Splits a path into its parent segment and its file name.
pub fn path_split<'a>(p: &'a str) -> (r: (Option<&'a str>, Option<&'a str>))
    ensures
        match r.0 {
            Some(par) => path_parent(p@) == Some(par@),
            None => path_parent(p@) is None,
        },
        match r.1 {
            Some(f) => path_file_name(p@) == Some(f@),
            None => path_file_name(p@) is None,
        },
{
    let len = p.unicode_len();
    match find_last_slash(p) {
        Some(i) => {
            let parent = if i > 0 {
                Some(p.substring_char(0, i))
            } else {
                None
            };
            let tail = p.substring_char(i + 1, len);
            let file = if tail.unicode_len() > 0 {
                Some(tail)
            } else {
                None
            };
            (parent, file)
        },
        None => {
            let file = if len > 0 {
                Some(p)
            } else {
                None
            };
            (None, file)
        },
    }
}

/// Appending to a common prefix keeps equality exactly when the tails are
/// equal.
pub proof fn lemma_append_cancel(a: Seq<char>, x: Seq<char>, y: Seq<char>)
    ensures
        (a + x == a + y) <==> x == y,
{
    if a + x == a + y {
        assert(x =~= y) by {
            assert((a + x).len() == a.len() + x.len());
            assert((a + y).len() == a.len() + y.len());
            assert(x.len() == y.len());
            assert(forall|i: int|
                0 <= i < x.len() ==> x[i] == (a + x)[a.len() + i] && y[i] == (a + y)[a.len() + i]);
        }
    }
    if x == y {
        assert(a + x == a + y);
    }
}

/// The decimal digit characters of `n`, most significant first.
pub open spec fn dec_digits(n: nat) -> Seq<char>
    decreases n,
{
    if n < 10 {
        seq![dec_digit_char(n)]
    } else {
        dec_digits(n / 10).push(dec_digit_char(n % 10))
    }
}

/// The character for one decimal digit.
pub open spec fn dec_digit_char(d: nat) -> char {
    if d == 0 {
        '0'
    } else if d == 1 {
        '1'
    } else if d == 2 {
        '2'
    } else if d == 3 {
        '3'
    } else if d == 4 {
        '4'
    } else if d == 5 {
        '5'
    } else if d == 6 {
        '6'
    } else if d == 7 {
        '7'
    } else if d == 8 {
        '8'
    } else {
        '9'
    }
}

fn dec_digit_str(d: u64) -> (r: &'static str)
    requires
        d < 10,
    ensures
        r@ =~= seq![dec_digit_char(d as nat)],
{
    proof {
        reveal_strlit("0");
        reveal_strlit("1");
        reveal_strlit("2");
        reveal_strlit("3");
        reveal_strlit("4");
        reveal_strlit("5");
        reveal_strlit("6");
        reveal_strlit("7");
        reveal_strlit("8");
        reveal_strlit("9");
    }
    if d == 0 {
        "0"
    } else if d == 1 {
        "1"
    } else if d == 2 {
        "2"
    } else if d == 3 {
        "3"
    } else if d == 4 {
        "4"
    } else if d == 5 {
        "5"
    } else if d == 6 {
        "6"
    } else if d == 7 {
        "7"
    } else if d == 8 {
        "8"
    } else {
        "9"
    }
}

/// Renders `n` in decimal.
pub fn u64_to_dec_string(n: u64) -> (r: String)
    ensures
        r@ == dec_digits(n as nat),
    decreases n,
{
    if n < 10 {
        str_to_string(dec_digit_str(n))
    } else {
        let mut s = u64_to_dec_string(n / 10);
        s.append(dec_digit_str(n % 10));
        proof {
            assert(dec_digits((n / 10) as nat).push(dec_digit_char((n % 10) as nat)) =~= dec_digits(
                (n / 10) as nat,
            ) + seq![dec_digit_char((n % 10) as nat)]);
        }
        s
    }
}

} // verus!
