//! Parsing SHA-512 checksum listings: one line per file, the hex digest
//! first, then the file name, separated by spaces or tabs — deliberately
//! only those two separators, the ones checksum listings use.

use vstd::prelude::*;

use crate::strutil::{has_suffix, lex_lt, str_eq, str_lt, str_to_string};

verus! {

/// The value of one hex digit character.
pub open spec fn hex_digit_val(c: char) -> Option<u8> {
    let v = c as u32;
    if 48 <= v <= 57 {
        Some((v - 48) as u8)
    } else if 97 <= v <= 102 {
        Some((v - 87) as u8)
    } else if 65 <= v <= 70 {
        Some((v - 55) as u8)
    } else {
        None
    }
}

/// Hex decoding: two digits per byte; an odd length or a non-digit is a
/// failure.
pub open spec fn spec_hex_decode(s: Seq<char>) -> Option<Seq<u8>>
    decreases s.len(),
{
    if s.len() == 0 {
        Some(Seq::<u8>::empty())
    } else if s.len() == 1 {
        None
    } else {
        match (hex_digit_val(s[0]), hex_digit_val(s[1])) {
            (Some(h), Some(l)) => match spec_hex_decode(s.skip(2)) {
                Some(r) => Some(seq![(h * 16 + l) as u8] + r),
                None => None,
            },
            _ => None,
        }
    }
}

fn hex_digit_val_exec(c: char) -> (r: Option<u8>)
    ensures
        r == hex_digit_val(c),
{
    let v = c as u32;
    if 48 <= v && v <= 57 {
        Some((v - 48) as u8)
    } else if 97 <= v && v <= 102 {
        Some((v - 87) as u8)
    } else if 65 <= v && v <= 70 {
        Some((v - 55) as u8)
    } else {
        None
    }
}

/// Decodes a hex string to its bytes.
pub fn hex_decode(s: &str) -> (r: Option<Vec<u8>>)
    ensures
        match r {
            Some(v) => spec_hex_decode(s@) == Some(v@),
            None => spec_hex_decode(s@) is None,
        },
{
    let len = s.unicode_len();
    let mut out: Vec<u8> = Vec::new();
    let mut i: usize = 0;
    proof {
        assert(s@.skip(0) =~= s@);
        assert(out@ + Seq::<u8>::empty() =~= out@);
    }
    loop
        invariant
            len == s@.len(),
            i <= len,
            match spec_hex_decode(s@) {
                Some(whole) => spec_hex_decode(s@.skip(i as int)) matches Some(rest) && whole
                    == out@ + rest,
                None => spec_hex_decode(s@.skip(i as int)) is None,
            },
        decreases len - i,
    {
        if i == len {
            proof {
                assert(s@.skip(i as int).len() == 0);
            }
            return Some(out);
        }
        proof {
            assert(s@.skip(i as int)[0] == s@[i as int]);
        }
        if i + 1 == len {
            proof {
                assert(s@.skip(i as int).len() == 1);
            }
            return None;
        }
        proof {
            assert(s@.skip(i as int)[1] == s@[i as int + 1]);
            assert(s@.skip(i as int).skip(2) =~= s@.skip(i as int + 2));
        }
        let h = match hex_digit_val_exec(s.get_char(i)) {
            Some(h) => h,
            None => {
                return None;
            },
        };
        let l = match hex_digit_val_exec(s.get_char(i + 1)) {
            Some(l) => l,
            None => {
                return None;
            },
        };
        let ghost out_before = out@;
        out.push(h * 16 + l);
        proof {
            if spec_hex_decode(s@) is Some {
                let rest2 = spec_hex_decode(s@.skip(i as int + 2))->Some_0;
                assert(out_before + (seq![(h * 16 + l) as u8] + rest2) =~= out@ + rest2);
            }
        }
        i = i + 2;
    }
}

/// Whether a character separates tokens on a checksum line: a space or a
/// tab, the separators checksum listings use.
pub open spec fn is_ws(c: char) -> bool {
    c == ' ' || c == '\t'
}

/// The leading whitespace length of a line tail.
pub open spec fn ws_len(s: Seq<char>) -> nat
    decreases s.len(),
{
    if s.len() > 0 && is_ws(s[0]) {
        1 + ws_len(s.drop_first())
    } else {
        0
    }
}

/// The leading token length of a line tail.
pub open spec fn token_len(s: Seq<char>) -> nat
    decreases s.len(),
{
    if s.len() > 0 && !is_ws(s[0]) {
        1 + token_len(s.drop_first())
    } else {
        0
    }
}

proof fn lemma_ws_len_bound(s: Seq<char>)
    ensures
        ws_len(s) <= s.len(),
    decreases s.len(),
{
    if s.len() > 0 && is_ws(s[0]) {
        lemma_ws_len_bound(s.drop_first());
    }
}

/// The next whitespace-separated token of a line tail, with the rest of
/// the line after it.
pub open spec fn next_token(s: Seq<char>) -> Option<(Seq<char>, Seq<char>)> {
    let t = s.skip(ws_len(s) as int);
    if token_len(t) == 0 {
        None
    } else {
        Some((t.take(token_len(t) as int), t.skip(token_len(t) as int)))
    }
}

fn is_ws_exec(c: char) -> (r: bool)
    ensures
        r == is_ws(c),
{
    c == ' ' || c == '\t'
}

/// Finds the next whitespace-separated token of a line tail.
pub fn next_token_exec<'a>(s: &'a str) -> (r: Option<(&'a str, &'a str)>)
    ensures
        match r {
            Some((tok, rest)) => next_token(s@) == Some((tok@, rest@)),
            None => next_token(s@) is None,
        },
{
    let len = s.unicode_len();
    let mut i: usize = 0;
    proof {
        assert(s@.skip(0) =~= s@);
        lemma_ws_len_bound(s@);
    }
    while i < len && is_ws_exec(s.get_char(i))
        invariant
            len == s@.len(),
            i <= len,
            ws_len(s@) == i + ws_len(s@.skip(i as int)),
        decreases len - i,
    {
        proof {
            assert(s@.skip(i as int)[0] == s@[i as int]);
            assert(s@.skip(i as int).drop_first() =~= s@.skip(i as int + 1));
        }
        i = i + 1;
    }
    proof {
        if i < len {
            assert(s@.skip(i as int)[0] == s@[i as int]);
            assert(ws_len(s@.skip(i as int)) == 0);
        } else {
            assert(s@.skip(i as int).len() == 0);
        }
        assert(ws_len(s@) == i);
    }
    let start = i;
    let mut j: usize = i;
    proof {
        assert(s@.skip(start as int).skip(0) =~= s@.skip(start as int));
    }
    while j < len && !is_ws_exec(s.get_char(j))
        invariant
            len == s@.len(),
            start <= j <= len,
            token_len(s@.skip(start as int)) == (j - start) + token_len(s@.skip(j as int)),
        decreases len - j,
    {
        proof {
            assert(s@.skip(j as int)[0] == s@[j as int]);
            assert(s@.skip(j as int).drop_first() =~= s@.skip(j as int + 1));
        }
        j = j + 1;
    }
    proof {
        if j < len {
            assert(s@.skip(j as int)[0] == s@[j as int]);
            assert(token_len(s@.skip(j as int)) == 0);
        } else {
            assert(s@.skip(j as int).len() == 0);
        }
        assert(token_len(s@.skip(start as int)) == j - start);
    }
    if j == start {
        return None;
    }
    let tok = s.substring_char(start, j);
    let rest = s.substring_char(j, len);
    proof {
        assert(s@.skip(start as int).take(j - start) =~= s@.subrange(start as int, j as int));
        assert(s@.skip(start as int).skip(j - start) =~= s@.subrange(j as int, len as int));
    }
    Some((tok, rest))
}

/// How checksum parsing fails.
#[derive(Debug)]
pub enum Error {
    DigestFromExactIter,
    HexDecode,
    Sha512EntryMissingDigest,
    Sha512EntryMissingFilename,
}

pub ghost enum ChecksumErrView {
    DigestLength,
    HexDecode,
    MissingDigest,
    MissingFilename,
}

/// One parsed line: the digest token is decoded from hex and must hold
/// exactly 64 bytes; the file name token follows it.
pub open spec fn spec_parse_checksum_line(line: Seq<char>) -> Result<
    (Seq<char>, Seq<u8>),
    ChecksumErrView,
> {
    match next_token(line) {
        None => Err(ChecksumErrView::MissingDigest),
        Some((digest_text, rest)) => match spec_hex_decode(digest_text) {
            None => Err(ChecksumErrView::HexDecode),
            Some(digest) => {
                if digest.len() != 64 {
                    Err(ChecksumErrView::DigestLength)
                } else {
                    match next_token(rest) {
                        None => Err(ChecksumErrView::MissingFilename),
                        Some((filename, _)) => Ok((filename, digest)),
                    }
                }
            },
        },
    }
}

/// Whether an error value reports the parse failure the view describes.
pub open spec fn checksum_err_matches(e: Error, ev: ChecksumErrView) -> bool {
    match ev {
        ChecksumErrView::DigestLength => e is DigestFromExactIter,
        ChecksumErrView::HexDecode => e is HexDecode,
        ChecksumErrView::MissingDigest => e is Sha512EntryMissingDigest,
        ChecksumErrView::MissingFilename => e is Sha512EntryMissingFilename,
    }
}

/// Parses one checksum line.
pub fn parse_sha512_checksum_line(line: &str) -> (r: Result<(String, Vec<u8>), Error>)
    ensures
        match r {
            Ok((f, d)) => spec_parse_checksum_line(line@) == Ok::<_, ChecksumErrView>((f@, d@)),
            Err(e) => spec_parse_checksum_line(line@) is Err && checksum_err_matches(
                e,
                spec_parse_checksum_line(line@)->Err_0,
            ),
        },
{
    let (digest_text, rest) = match next_token_exec(line) {
        None => {
            return Err(Error::Sha512EntryMissingDigest);
        },
        Some(t) => t,
    };
    let digest = match hex_decode(digest_text) {
        None => {
            return Err(Error::HexDecode);
        },
        Some(d) => d,
    };
    if digest.len() != 64 {
        return Err(Error::DigestFromExactIter);
    }
    match next_token_exec(rest) {
        None => Err(Error::Sha512EntryMissingFilename),
        Some((filename, _)) => Ok((str_to_string(filename), digest)),
    }
}

/// The first line of a text tail: the characters before the next newline.
pub open spec fn first_line(s: Seq<char>) -> Seq<char>
    decreases s.len(),
{
    if s.len() == 0 || s[0] == '\n' {
        Seq::<char>::empty()
    } else {
        seq![s[0]] + first_line(s.drop_first())
    }
}

/// A line with a trailing carriage return removed.
pub open spec fn strip_cr(l: Seq<char>) -> Seq<char> {
    if has_suffix(l, "\r"@) {
        l.take(l.len() - "\r"@.len())
    } else {
        l
    }
}

/// Inserting an entry into the checksum table, sorted by file name,
/// replacing the digest of a file already present.
pub open spec fn checksum_insert(
    s: Seq<(Seq<char>, Seq<u8>)>,
    f: Seq<char>,
    d: Seq<u8>,
) -> Seq<(Seq<char>, Seq<u8>)>
    decreases s.len(),
{
    if s.len() == 0 {
        seq![(f, d)]
    } else if f == s[0].0 {
        seq![(f, d)] + s.drop_first()
    } else if lex_lt(f, s[0].0) {
        seq![(f, d)] + s
    } else {
        seq![s[0]] + checksum_insert(s.drop_first(), f, d)
    }
}

/// Parsing a checksum listing from a cursor: one entry per line, stopping
/// at the first malformed line.
pub open spec fn spec_parse_checksums_from(
    s: Seq<char>,
    i: int,
    acc: Seq<(Seq<char>, Seq<u8>)>,
) -> Result<Seq<(Seq<char>, Seq<u8>)>, ChecksumErrView>
    decreases s.len() + 1 - i,
{
    if i >= s.len() {
        Ok(acc)
    } else {
        let ll = first_line(s.skip(i)).len() as int;
        let line = strip_cr(first_line(s.skip(i)));
        match spec_parse_checksum_line(line) {
            Err(e) => Err(e),
            Ok((f, d)) => {
                let next = if i + ll + 1 <= s.len() {
                    i + ll + 1
                } else {
                    s.len() as int
                };
                spec_parse_checksums_from(s, next, checksum_insert(acc, f, d))
            },
        }
    }
}

/// What a whole checksum listing parses to.
pub open spec fn spec_parse_checksums(s: Seq<char>) -> Result<
    Seq<(Seq<char>, Seq<u8>)>,
    ChecksumErrView,
> {
    spec_parse_checksums_from(s, 0, Seq::empty())
}

/// The view of the checksum table.
pub open spec fn checksums_view(v: Seq<(String, Vec<u8>)>) -> Seq<(Seq<char>, Seq<u8>)> {
    Seq::new(v.len(), |i: int| (v[i].0@, v[i].1@))
}

proof fn lemma_checksum_insert_shift(s: Seq<(Seq<char>, Seq<u8>)>, f: Seq<char>, d: Seq<u8>, i: int)
    requires
        0 <= i < s.len(),
        f != s[i].0,
        !lex_lt(f, s[i].0),
        checksum_insert(s, f, d) == s.take(i) + checksum_insert(s.skip(i), f, d),
    ensures
        checksum_insert(s, f, d) == s.take(i + 1) + checksum_insert(s.skip(i + 1), f, d),
{
    let rest = s.skip(i);
    assert(rest[0] == s[i]);
    assert(rest.drop_first() =~= s.skip(i + 1));
    assert(checksum_insert(rest, f, d) == seq![s[i]] + checksum_insert(s.skip(i + 1), f, d));
    assert(s.take(i) + (seq![s[i]] + checksum_insert(s.skip(i + 1), f, d)) =~= s.take(i + 1)
        + checksum_insert(s.skip(i + 1), f, d));
}

/// Inserts an entry into the checksum table vector, keeping it sorted by
/// file name.
fn vec_insert_checksum(v: &mut Vec<(String, Vec<u8>)>, f: String, d: Vec<u8>)
    ensures
        checksums_view(final(v)@) == checksum_insert(checksums_view(old(v)@), f@, d@),
{
    let ghost orig = checksums_view(v@);
    let mut i: usize = 0;
    proof {
        assert(orig.skip(0) =~= orig);
        assert(orig.take(0) + checksum_insert(orig, f@, d@) =~= checksum_insert(orig, f@, d@));
    }
    loop
        invariant
            orig == checksums_view(old(v)@),
            i <= v.len(),
            checksums_view(v@) == orig,
            orig.len() == v@.len(),
            checksum_insert(orig, f@, d@) == orig.take(i as int) + checksum_insert(
                orig.skip(i as int),
                f@,
                d@,
            ),
        decreases v.len() - i,
    {
        if i == v.len() {
            proof {
                assert(orig.skip(i as int).len() == 0);
                assert(orig.take(i as int) =~= orig);
                assert(orig + seq![(f@, d@)] =~= orig.push((f@, d@)));
            }
            v.push((f, d));
            proof {
                assert(checksums_view(v@) =~= orig.push((v@.last().0@, v@.last().1@)));
            }
            return ;
        }
        proof {
            assert(orig.skip(i as int)[0] == orig[i as int]);
            assert(orig[i as int] == (v@[i as int].0@, v@[i as int].1@));
        }
        if str_eq(v[i].0.as_str(), f.as_str()) {
            proof {
                assert(checksum_insert(orig.skip(i as int), f@, d@) == seq![(f@, d@)] + orig.skip(
                    i as int,
                ).drop_first());
                assert(orig.skip(i as int).drop_first() =~= orig.skip(i as int + 1));
                assert(orig.take(i as int) + (seq![(f@, d@)] + orig.skip(i as int + 1))
                    =~= orig.update(i as int, (f@, d@)));
            }
            v.set(i, (f, d));
            proof {
                assert(checksums_view(v@) =~= orig.update(i as int, (f@, d@)));
            }
            return ;
        }
        if str_lt(f.as_str(), v[i].0.as_str()) {
            proof {
                assert(checksum_insert(orig.skip(i as int), f@, d@) == seq![(f@, d@)] + orig.skip(
                    i as int,
                ));
                assert(orig.take(i as int) + (seq![(f@, d@)] + orig.skip(i as int)) =~= orig.insert(
                    i as int,
                    (f@, d@),
                ));
            }
            v.insert(i, (f, d));
            proof {
                assert(checksums_view(v@) =~= orig.insert(i as int, (f@, d@)));
            }
            return ;
        }
        proof {
            lemma_checksum_insert_shift(orig, f@, d@, i as int);
        }
        i = i + 1;
    }
}

/// Parses a SHA-512 checksum listing: for each line, a 128-digit hex
/// digest, whitespace, and a file name. The table is keyed by file name,
/// sorted, a repeated name keeping its last digest. Fails on the first
/// malformed line: a missing digest or file name, a digest that is not
/// hex, or one that does not hold exactly 64 bytes.
pub fn parse_sha512_checksums(text: &str) -> (r: Result<Vec<(String, Vec<u8>)>, Error>)
    ensures
        match r {
            Ok(v) => spec_parse_checksums(text@) == Ok::<_, ChecksumErrView>(checksums_view(v@)),
            Err(e) => spec_parse_checksums(text@) is Err && checksum_err_matches(
                e,
                spec_parse_checksums(text@)->Err_0,
            ),
        },
{
    let len = text.unicode_len();
    let mut out: Vec<(String, Vec<u8>)> = Vec::new();
    let mut i: usize = 0;
    proof {
        assert(checksums_view(out@) =~= Seq::<(Seq<char>, Seq<u8>)>::empty());
    }
    while i < len
        invariant
            len == text@.len(),
            i <= len,
            spec_parse_checksums(text@) == spec_parse_checksums_from(
                text@,
                i as int,
                checksums_view(out@),
            ),
        decreases len - i,
    {
        // Scan to the end of the current line.
        let mut j: usize = i;
        proof {
            assert(text@.subrange(i as int, i as int) + first_line(text@.skip(i as int))
                =~= first_line(text@.skip(i as int)));
        }
        while j < len && text.get_char(j) != '\n'
            invariant
                len == text@.len(),
                i <= j <= len,
                first_line(text@.skip(i as int)) == text@.subrange(i as int, j as int)
                    + first_line(text@.skip(j as int)),
            decreases len - j,
        {
            proof {
                assert(text@.skip(j as int)[0] == text@[j as int]);
                assert(text@.skip(j as int).drop_first() =~= text@.skip(j as int + 1));
                assert(text@.subrange(i as int, j as int) + (seq![text@[j as int]] + first_line(
                    text@.skip(j as int + 1),
                )) =~= text@.subrange(i as int, j as int + 1) + first_line(
                    text@.skip(j as int + 1),
                ));
            }
            j = j + 1;
        }
        proof {
            if j < len {
                assert(text@.skip(j as int)[0] == text@[j as int]);
            } else {
                assert(text@.skip(j as int).len() == 0);
            }
            assert(first_line(text@.skip(j as int)) =~= Seq::<char>::empty());
            assert(text@.subrange(i as int, j as int) + Seq::<char>::empty() =~= text@.subrange(
                i as int,
                j as int,
            ));
        }
        let raw_line = text.substring_char(i, j);
        let line = match crate::strutil::str_strip_suffix(raw_line, "\r") {
            Some(stripped) => stripped,
            None => raw_line,
        };
        proof {
            assert(line@ == strip_cr(first_line(text@.skip(i as int))));
        }
        match parse_sha512_checksum_line(line) {
            Err(e) => {
                return Err(e);
            },
            Ok((f, d)) => {
                vec_insert_checksum(&mut out, f, d);
            },
        }
        if j == len {
            i = len;
        } else {
            i = j + 1;
        }
    }
    Ok(out)
}

} // verus!
