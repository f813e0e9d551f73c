//! Free-text search: case-insensitive, a record matches when the token is
//! a substring of its nickname, its name, or any stack element; at most 50
//! matches come back, in row order. Search never consults the cache tier;
//! it always targets the durable store. Case folding is std's Unicode
//! lowercase mapping; on ASCII text that mapping is stated exactly, so the
//! contracts carry case-insensitivity for ASCII tokens: two tokens that
//! lower alike provably match the same records.
use vstd::prelude::*;
use vstd::string::StrSliceExecFns;
use vstd::string::StringExecFns;

use crate::dto::PessoaDTO;
use crate::dto::PessoaView;
use crate::dto::pessoa_views;
use crate::text::push_char;
use crate::text::to_char_vec;

verus! {

/// The search result cap: never more than this many matches.
pub const MAX_SEARCH_RESULTS: usize = 50;

/// What std's `str::to_lowercase` returns; a function of the characters
/// alone.
pub uninterp spec fn lower_of(s: Seq<char>) -> Seq<char>;

/// Every character of `s` is ASCII.
pub open spec fn all_ascii(s: Seq<char>) -> bool {
    forall|i: int| 0 <= i < s.len() ==> (#[trigger] s[i] as int) < 128
}

/// The ASCII lowercase of one character: `A`..`Z` to `a`..`z`, anything
/// else unchanged.
pub open spec fn ascii_lower_char(c: char) -> char {
    if 'A' <= c && c <= 'Z' {
        ((c as u8) + 32) as char
    } else {
        c
    }
}

/// The ASCII lowercase of `s`, character by character.
pub open spec fn ascii_lower_of(s: Seq<char>) -> Seq<char> {
    s.map_values(|c: char| ascii_lower_char(c))
}

/// Relies on std's `str::to_lowercase`: the Unicode lowercase mapping of
/// the string, depending on its characters alone. On ASCII text that
/// mapping is exactly the ASCII one — `A`..`Z` lower to `a`..`z`, the
/// rest of ASCII is unchanged — which the second clause states.
#[verifier::external_body]
fn lowercase(s: &str) -> (r: String)
    ensures
        r@ == lower_of(s@),
        all_ascii(s@) ==> r@ == ascii_lower_of(s@),
{
    s.to_lowercase()
}

/// `needle` occurs contiguously inside `hay`.
pub open spec fn is_substring(hay: Seq<char>, needle: Seq<char>) -> bool {
    exists|k: int|
        0 <= k <= hay.len() - needle.len() && #[trigger] hay.subrange(k, k + needle.len())
            == needle
}

/// Whether `needle` occurs contiguously inside `hay`.
fn contains_sub(hay: &Vec<char>, needle: &Vec<char>) -> (r: bool)
    ensures
        r == is_substring(hay@, needle@),
{
    let nlen = needle.len();
    let hlen = hay.len();
    if nlen > hlen {
        return false;
    }
    if nlen == 0 {
        assert(is_substring(hay@, needle@)) by {
            assert(hay@.subrange(0, 0 + needle@.len() as int) =~= needle@);
        }
        return true;
    }
    let mut k: usize = 0;
    while k <= hlen - nlen
        invariant
            nlen == needle@.len(),
            hlen == hay@.len(),
            1 <= nlen <= hlen,
            k <= hlen - nlen + 1,
            forall|k2: int|
                0 <= k2 < k ==> #[trigger] hay@.subrange(k2, k2 + needle@.len()) != needle@,
        decreases hlen - nlen - k + 1,
    {
        let mut j: usize = 0;
        let mut hit = true;
        while j < nlen
            invariant
                nlen == needle@.len(),
                hlen == hay@.len(),
                k + nlen <= hlen,
                j <= nlen,
                hit ==> forall|j2: int| 0 <= j2 < j ==> hay@[k + j2] == needle@[j2],
                !hit ==> hay@.subrange(k as int, k + needle@.len()) != needle@,
            decreases nlen - j,
        {
            if hay[k + j] != needle[j] {
                proof {
                    assert(hay@.subrange(k as int, k + needle@.len())[j as int] == hay@[k + j]);
                }
                hit = false;
                j = nlen;
            } else {
                j = j + 1;
            }
        }
        if hit {
            proof {
                assert(hay@.subrange(k as int, k + needle@.len()) =~= needle@);
            }
            return true;
        }
        k = k + 1;
    }
    proof {
        assert forall|k2: int|
            0 <= k2 <= hay@.len() - needle@.len() implies #[trigger] hay@.subrange(
            k2,
            k2 + needle@.len(),
        ) != needle@ by {}
    }
    false
}

/// A record matches the already-lowered token `tl` when it is a substring
/// of the lowered nickname, the lowered name, or any lowered stack
/// element. The record's own case never matters; the token's enters only
/// through the lowering.
pub open spec fn search_match_on(p: PessoaView, tl: Seq<char>) -> bool {
    ||| is_substring(lower_of(p.apelido), tl)
    ||| is_substring(lower_of(p.nome), tl)
    ||| match p.stack {
        Some(v) => exists|i: int|
            0 <= i < v.len() && is_substring(lower_of(#[trigger] v[i]), tl),
        None => false,
    }
}

/// A record matches raw token `t` when it matches the lowered token.
pub open spec fn search_match(p: PessoaView, t: Seq<char>) -> bool {
    search_match_on(p, lower_of(t))
}

/// Whether the record matches the token `tl`, taken as already lowered.
fn record_matches_lowered(p: &PessoaDTO, tl_chars: &Vec<char>) -> (r: bool)
    ensures
        r == search_match_on(p@, tl_chars@),
{
    let ap = to_char_vec(lowercase(p.apelido.as_str()).as_str());
    if contains_sub(&ap, tl_chars) {
        return true;
    }
    let no = to_char_vec(lowercase(p.nome.as_str()).as_str());
    if contains_sub(&no, tl_chars) {
        return true;
    }
    match &p.stack {
        None => false,
        Some(v) => {
            let mut i: usize = 0;
            while i < v.len()
                invariant
                    p@.stack == Some(v.deep_view()),
                    i <= v@.len(),
                    forall|j: int|
                        0 <= j < i ==> !is_substring(
                            lower_of(#[trigger] v.deep_view()[j]),
                            tl_chars@,
                        ),
                decreases v@.len() - i,
            {
                let el = to_char_vec(lowercase(v[i].as_str()).as_str());
                if contains_sub(&el, tl_chars) {
                    assert(v.deep_view()[i as int] == v@[i as int]@);
                    assert(is_substring(lower_of(v.deep_view()[i as int]), tl_chars@));
                    assert(v.deep_view().len() == v@.len());
                    assert(search_match_on(p@, tl_chars@)) by {
                        let w = match p@.stack {
                            Some(w0) => w0,
                            None => Seq::empty(),
                        };
                        assert(w == v.deep_view());
                        assert(0 <= (i as int) < w.len() && is_substring(
                            lower_of(w[i as int]),
                            tl_chars@,
                        ));
                    }
                    return true;
                }
                assert(v.deep_view()[i as int] == v@[i as int]@);
                i = i + 1;
            }
            false
        },
    }
}

/// Whether the record matches the raw token, case-insensitively. For an
/// ASCII token the second clause pins the folding exactly: two tokens with
/// the same ASCII lowercase provably get the same answer on every record.
pub fn record_matches(p: &PessoaDTO, t: &str) -> (r: bool)
    ensures
        r == search_match(p@, t@),
        all_ascii(t@) ==> r == search_match_on(p@, ascii_lower_of(t@)),
{
    let tlow = lowercase(t);
    let tl = to_char_vec(tlow.as_str());
    record_matches_lowered(p, &tl)
}

/// The records of `rows` matching the already-lowered token `tl`, in row
/// order.
pub open spec fn matching_on(rows: Seq<PessoaView>, tl: Seq<char>) -> Seq<PessoaView>
    decreases rows.len(),
{
    if rows.len() == 0 {
        Seq::empty()
    } else if search_match_on(rows[0], tl) {
        seq![rows[0]] + matching_on(rows.drop_first(), tl)
    } else {
        matching_on(rows.drop_first(), tl)
    }
}

/// The records of `rows` matching raw token `t`, in row order.
pub open spec fn matching(rows: Seq<PessoaView>, t: Seq<char>) -> Seq<PessoaView> {
    matching_on(rows, lower_of(t))
}

/// At most the first `n` elements of `s`.
pub open spec fn take_up_to(s: Seq<PessoaView>, n: int) -> Seq<PessoaView> {
    if s.len() <= n {
        s
    } else {
        s.subrange(0, n)
    }
}

proof fn lemma_matching_push(rows: Seq<PessoaView>, tl: Seq<char>, p: PessoaView)
    ensures
        search_match_on(p, tl) ==> matching_on(rows.push(p), tl) == matching_on(
            rows,
            tl,
        ).push(p),
        !search_match_on(p, tl) ==> matching_on(rows.push(p), tl) == matching_on(rows, tl),
    decreases rows.len(),
{
    if rows.len() == 0 {
        reveal_with_fuel(matching_on, 2);
        assert(rows.push(p)[0] == p);
        assert(rows =~= Seq::<PessoaView>::empty());
        assert(rows.push(p).drop_first() =~= Seq::<PessoaView>::empty());
        if search_match_on(p, tl) {
            assert(matching_on(rows.push(p), tl) =~= matching_on(rows, tl).push(p));
        } else {
            assert(matching_on(rows.push(p), tl) =~= matching_on(rows, tl));
        }
    } else {
        assert(rows.push(p).drop_first() =~= rows.drop_first().push(p));
        lemma_matching_push(rows.drop_first(), tl, p);
        if search_match_on(p, tl) {
            assert(matching_on(rows.push(p), tl) =~= matching_on(rows, tl).push(p));
        } else {
            assert(matching_on(rows.push(p), tl) =~= matching_on(rows, tl));
        }
    }
}

/// The first `MAX_SEARCH_RESULTS` records of `rows` matching `t`, in row
/// order: every match is returned until the cap, and never more than the
/// cap, regardless of how many rows match. For an ASCII token the second
/// clause pins the case folding exactly, so two tokens with the same
/// ASCII lowercase provably select the same records.
pub fn search_records(rows: &Vec<PessoaDTO>, t: &str) -> (r: Vec<PessoaDTO>)
    ensures
        pessoa_views(r@) == take_up_to(
            matching(pessoa_views(rows@), t@),
            MAX_SEARCH_RESULTS as int,
        ),
        all_ascii(t@) ==> pessoa_views(r@) == take_up_to(
            matching_on(pessoa_views(rows@), ascii_lower_of(t@)),
            MAX_SEARCH_RESULTS as int,
        ),
        r@.len() <= MAX_SEARCH_RESULTS,
{
    let tlow = lowercase(t);
    let tl = to_char_vec(tlow.as_str());
    let ghost all = pessoa_views(rows@);
    let mut r: Vec<PessoaDTO> = Vec::new();
    let mut i: usize = 0;
    proof {
        assert(all.subrange(0, 0) =~= Seq::<PessoaView>::empty());
        assert(pessoa_views(r@) =~= take_up_to(
            matching_on(all.subrange(0, 0), tl@),
            MAX_SEARCH_RESULTS as int,
        ));
    }
    while i < rows.len()
        invariant
            all == pessoa_views(rows@),
            all.len() == rows@.len(),
            tl@ == lower_of(t@),
            i <= rows@.len(),
            r@.len() <= MAX_SEARCH_RESULTS,
            pessoa_views(r@) == take_up_to(
                matching_on(all.subrange(0, i as int), tl@),
                MAX_SEARCH_RESULTS as int,
            ),
        decreases rows@.len() - i,
    {
        let ghost pre = all.subrange(0, i as int);
        proof {
            lemma_matching_push(pre, tl@, all[i as int]);
            assert(all.subrange(0, i + 1) =~= pre.push(all[i as int]));
            assert(all[i as int] == rows@[i as int]@);
        }
        if r.len() < MAX_SEARCH_RESULTS && record_matches_lowered(&rows[i], &tl) {
            let ghost old_r = r@;
            r.push(rows[i].duplicate());
            proof {
                assert(pessoa_views(r@) =~= pessoa_views(old_r).push(rows@[i as int]@));
                assert(matching_on(pre, tl@).len() == pessoa_views(old_r).len());
                assert(pessoa_views(r@) =~= take_up_to(
                    matching_on(all.subrange(0, i + 1), tl@),
                    MAX_SEARCH_RESULTS as int,
                ));
            }
        } else {
            proof {
                if search_match_on(all[i as int], tl@) {
                    let m = matching_on(pre, tl@);
                    assert(m.len() >= MAX_SEARCH_RESULTS);
                    assert(m.push(all[i as int]).subrange(0, MAX_SEARCH_RESULTS as int)
                        =~= take_up_to(m, MAX_SEARCH_RESULTS as int));
                    assert(pessoa_views(r@) =~= take_up_to(
                        matching_on(all.subrange(0, i + 1), tl@),
                        MAX_SEARCH_RESULTS as int,
                    ));
                } else {
                    assert(pessoa_views(r@) =~= take_up_to(
                        matching_on(all.subrange(0, i + 1), tl@),
                        MAX_SEARCH_RESULTS as int,
                    ));
                }
            }
        }
        i = i + 1;
    }
    proof {
        assert(all.subrange(0, rows@.len() as int) =~= all);
    }
    r
}

/// The pattern the durable store's LIKE search is queried with: the
/// lowered token between wildcards. For an ASCII token the folding is
/// pinned exactly, so case-variant tokens provably yield one pattern.
pub fn search_pattern(t: &str) -> (r: String)
    ensures
        r@ == seq!['%'] + lower_of(t@) + seq!['%'],
        all_ascii(t@) ==> r@ == seq!['%'] + ascii_lower_of(t@) + seq!['%'],
{
    let mut r = String::new();
    push_char(&mut r, '%');
    let low = lowercase(t);
    r.append(low.as_str());
    push_char(&mut r, '%');
    assert(r@ =~= seq!['%'] + lower_of(t@) + seq!['%']);
    proof {
        if all_ascii(t@) {
            assert(r@ =~= seq!['%'] + ascii_lower_of(t@) + seq!['%']);
        }
    }
    r
}

} // verus!
