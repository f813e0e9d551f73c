//! The multi-value codec for the stack column of the durable store. A
//! stack element may hold any character, the delimiter included, so a
//! plain join cannot be read back unambiguously; here every element is
//! escaped (`\` as `\\`, the space delimiter as `\s`) and followed by one
//! delimiter, which makes the encoding injective over all stacks: the
//! round trip below holds with no condition on the elements, and an empty
//! stack (the empty column) stays distinct from every other. An absent
//! stack is never encoded at all — it is stored as NULL.
use vstd::prelude::*;

use crate::text::from_char_vec;
use crate::text::push_char;
use crate::text::to_char_vec;

verus! {

/// How one element character appears in the stack column: the escape
/// character and the delimiter escaped, everything else verbatim.
pub open spec fn esc_char(c: char) -> Seq<char> {
    if c == '\\' {
        seq!['\\', '\\']
    } else if c == ' ' {
        seq!['\\', 's']
    } else {
        seq![c]
    }
}

/// One element, escaped.
pub open spec fn esc_elem(s: Seq<char>) -> Seq<char>
    decreases s.len(),
{
    if s.len() == 0 {
        Seq::empty()
    } else {
        esc_char(s[0]) + esc_elem(s.drop_first())
    }
}

/// The stack column's value for a present stack: every element escaped,
/// every element followed by one delimiter. Empty for the empty stack.
pub open spec fn encoded_stack(v: Seq<Seq<char>>) -> Seq<char>
    decreases v.len(),
{
    if v.len() == 0 {
        Seq::empty()
    } else {
        esc_elem(v[0]) + seq![' '] + encoded_stack(v.drop_first())
    }
}

/// One decoding step: `cur` is the element being read back, `acc` the
/// elements already read. A dangling or unknown escape, or a final
/// element missing its delimiter, is malformed.
pub open spec fn decode_rec(s: Seq<char>, cur: Seq<char>, acc: Seq<Seq<char>>) -> Option<
    Seq<Seq<char>>,
>
    decreases s.len(),
{
    if s.len() == 0 {
        if cur.len() == 0 {
            Some(acc)
        } else {
            None
        }
    } else if s[0] == ' ' {
        decode_rec(s.drop_first(), Seq::empty(), acc.push(cur))
    } else if s[0] == '\\' {
        if s.len() == 1 {
            None
        } else if s[1] == '\\' {
            decode_rec(s.skip(2), cur.push('\\'), acc)
        } else if s[1] == 's' {
            decode_rec(s.skip(2), cur.push(' '), acc)
        } else {
            None
        }
    } else {
        decode_rec(s.drop_first(), cur.push(s[0]), acc)
    }
}

/// The stack a column value decodes to, or `None` where the value is not
/// an encoding of any stack.
pub open spec fn decoded_stack(s: Seq<char>) -> Option<Seq<Seq<char>>> {
    decode_rec(s, Seq::empty(), Seq::empty())
}

proof fn lemma_esc_elem_push(s: Seq<char>, c: char)
    ensures
        esc_elem(s.push(c)) == esc_elem(s) + esc_char(c),
    decreases s.len(),
{
    if s.len() == 0 {
        reveal_with_fuel(esc_elem, 2);
        assert(s.push(c)[0] == c);
        assert(s =~= Seq::<char>::empty());
        assert(s.push(c).drop_first() =~= Seq::<char>::empty());
        assert(esc_elem(s.push(c)) =~= esc_elem(s) + esc_char(c));
    } else {
        assert(s.push(c).drop_first() =~= s.drop_first().push(c));
        lemma_esc_elem_push(s.drop_first(), c);
        assert(esc_elem(s.push(c)) =~= esc_elem(s) + esc_char(c));
    }
}

proof fn lemma_encoded_stack_push(v: Seq<Seq<char>>, x: Seq<char>)
    ensures
        encoded_stack(v.push(x)) == encoded_stack(v) + esc_elem(x) + seq![' '],
    decreases v.len(),
{
    if v.len() == 0 {
        reveal_with_fuel(encoded_stack, 2);
        assert(v.push(x)[0] == x);
        assert(v =~= Seq::<Seq<char>>::empty());
        assert(v.push(x).drop_first() =~= Seq::<Seq<char>>::empty());
        assert(encoded_stack(v.push(x)) =~= encoded_stack(v) + esc_elem(x) + seq![' ']);
    } else {
        assert(v.push(x).drop_first() =~= v.drop_first().push(x));
        lemma_encoded_stack_push(v.drop_first(), x);
        assert(encoded_stack(v.push(x)) =~= encoded_stack(v) + esc_elem(x) + seq![' ']);
    }
}

/// Appends the escape of one element character.
fn append_esc_char(out: &mut String, c: char)
    ensures
        final(out)@ == old(out)@ + esc_char(c),
{
    if c == '\\' {
        push_char(out, '\\');
        push_char(out, '\\');
    } else if c == ' ' {
        push_char(out, '\\');
        push_char(out, 's');
    } else {
        push_char(out, c);
    }
    assert(final(out)@ =~= old(out)@ + esc_char(c));
}

/// Appends one escaped element and its delimiter.
fn append_elem(out: &mut String, s: &str)
    ensures
        final(out)@ == old(out)@ + esc_elem(s@) + seq![' '],
{
    let cs = to_char_vec(s);
    let ghost start = out@;
    let mut i: usize = 0;
    proof {
        assert(s@.subrange(0, 0) =~= Seq::<char>::empty());
        assert(start + esc_elem(s@.subrange(0, 0)) =~= start);
    }
    while i < cs.len()
        invariant
            cs@ == s@,
            i <= cs@.len(),
            out@ == start + esc_elem(s@.subrange(0, i as int)),
        decreases cs@.len() - i,
    {
        append_esc_char(out, cs[i]);
        proof {
            lemma_esc_elem_push(s@.subrange(0, i as int), cs@[i as int]);
            assert(s@.subrange(0, i + 1) =~= s@.subrange(0, i as int).push(cs@[i as int]));
        }
        i = i + 1;
    }
    push_char(out, ' ');
    proof {
        assert(s@.subrange(0, cs@.len() as int) =~= s@);
        assert(final(out)@ =~= old(out)@ + esc_elem(s@) + seq![' ']);
    }
}

/// Encodes a present stack into the durable store's single column value.
pub fn encode_stack(v: &Vec<String>) -> (r: String)
    ensures
        r@ == encoded_stack(v.deep_view()),
{
    let mut r = String::new();
    let mut i: usize = 0;
    proof {
        assert(v.deep_view().subrange(0, 0) =~= Seq::<Seq<char>>::empty());
    }
    while i < v.len()
        invariant
            i <= v@.len(),
            r@ == encoded_stack(v.deep_view().subrange(0, i as int)),
        decreases v@.len() - i,
    {
        append_elem(&mut r, v[i].as_str());
        proof {
            let pre = v.deep_view().subrange(0, i as int);
            lemma_encoded_stack_push(pre, v@[i as int]@);
            assert(v.deep_view()[i as int] == v@[i as int]@);
            assert(v.deep_view().subrange(0, i + 1) =~= pre.push(v@[i as int]@));
            assert(r@ =~= encoded_stack(v.deep_view().subrange(0, i + 1)));
        }
        i = i + 1;
    }
    assert(v.deep_view().subrange(0, v@.len() as int) =~= v.deep_view());
    r
}

/// Decodes a stack column value back into its elements; `None` where the
/// value is not an encoding of any stack.
pub fn decode_stack(s: &str) -> (r: Option<Vec<String>>)
    ensures
        r.deep_view() == decoded_stack(s@),
{
    let cs = to_char_vec(s);
    let mut out: Vec<String> = Vec::new();
    let mut cur: Vec<char> = Vec::new();
    let mut i: usize = 0;
    proof {
        assert(s@.skip(0) =~= s@);
        assert(out.deep_view() =~= Seq::<Seq<char>>::empty());
        assert(decoded_stack(s@) == decode_rec(s@.skip(0), cur@, out.deep_view()));
    }
    while i < cs.len()
        invariant
            cs@ == s@,
            i <= cs@.len(),
            decoded_stack(s@) == decode_rec(s@.skip(i as int), cur@, out.deep_view()),
        decreases cs@.len() - i,
    {
        let ghost tail = s@.skip(i as int);
        proof {
            assert(tail[0] == s@[i as int]);
            assert(tail.drop_first() =~= s@.skip(i + 1));
        }
        let c = cs[i];
        if c == ' ' {
            let ghost old_out = out.deep_view();
            let ghost old_cur = cur@;
            let piece = from_char_vec(&cur);
            out.push(piece);
            cur = Vec::new();
            proof {
                assert(out.deep_view() =~= old_out.push(old_cur));
                assert(cur@ =~= Seq::<char>::empty());
            }
            i = i + 1;
        } else if c == '\\' {
            if i + 1 >= cs.len() {
                proof {
                    assert(tail.len() == 1);
                    assert(decode_rec(tail, cur@, out.deep_view()) is None);
                    assert(None::<Vec<String>>.deep_view() == None::<Seq<Seq<char>>>);
                }
                return None;
            }
            let c2 = cs[i + 1];
            proof {
                assert(tail.len() >= 2);
                assert(tail[1] == s@[i + 1]);
                assert(tail.skip(2) =~= s@.skip(i + 2));
            }
            if c2 == '\\' {
                cur.push('\\');
                i = i + 2;
            } else if c2 == 's' {
                cur.push(' ');
                i = i + 2;
            } else {
                proof {
                    assert(decode_rec(tail, cur@, out.deep_view()) is None);
                    assert(None::<Vec<String>>.deep_view() == None::<Seq<Seq<char>>>);
                }
                return None;
            }
        } else {
            cur.push(c);
            i = i + 1;
        }
    }
    proof {
        assert(s@.skip(i as int).len() == 0);
    }
    if cur.len() == 0 {
        let r = Some(out);
        assert(r.deep_view() == decoded_stack(s@));
        r
    } else {
        proof {
            assert(None::<Vec<String>>.deep_view() == None::<Seq<Seq<char>>>);
        }
        None
    }
}

proof fn lemma_decode_elem(e: Seq<char>, rest: Seq<char>, cur: Seq<char>, acc: Seq<Seq<char>>)
    ensures
        decode_rec(esc_elem(e) + seq![' '] + rest, cur, acc) == decode_rec(
            rest,
            Seq::empty(),
            acc.push(cur + e),
        ),
    decreases e.len(),
{
    let s = esc_elem(e) + seq![' '] + rest;
    if e.len() == 0 {
        assert(s =~= seq![' '] + rest);
        assert(s[0] == ' ');
        assert(s.drop_first() =~= rest);
        assert(cur + e =~= cur);
    } else {
        let c = e[0];
        let e2 = e.drop_first();
        assert(esc_elem(e) == esc_char(c) + esc_elem(e2));
        lemma_decode_elem(e2, rest, cur.push(c), acc);
        assert(cur.push(c) + e2 =~= cur + e);
        if c == '\\' {
            assert(s[0] == '\\' && s.len() >= 2 && s[1] == '\\');
            assert(s.skip(2) =~= esc_elem(e2) + seq![' '] + rest);
        } else if c == ' ' {
            assert(s[0] == '\\' && s.len() >= 2 && s[1] == 's');
            assert(s.skip(2) =~= esc_elem(e2) + seq![' '] + rest);
        } else {
            assert(s[0] == c);
            assert(s.drop_first() =~= esc_elem(e2) + seq![' '] + rest);
        }
    }
}

proof fn lemma_decode_encode_rec(v: Seq<Seq<char>>, acc: Seq<Seq<char>>)
    ensures
        decode_rec(encoded_stack(v), Seq::empty(), acc) == Some(acc + v),
    decreases v.len(),
{
    if v.len() == 0 {
        assert(acc + v =~= acc);
    } else {
        lemma_decode_elem(v[0], encoded_stack(v.drop_first()), Seq::empty(), acc);
        assert(Seq::<char>::empty() + v[0] =~= v[0]);
        lemma_decode_encode_rec(v.drop_first(), acc.push(v[0]));
        assert(acc.push(v[0]) + v.drop_first() =~= acc + v);
    }
}

/// Round trip of the stack codec, for every stack whatsoever: decoding an
/// encoded stack gives the stack back — elements may hold the delimiter,
/// the escape character, or nothing at all, and the empty stack stays the
/// empty stack.
pub proof fn lemma_decode_encode(v: Seq<Seq<char>>)
    ensures
        decoded_stack(encoded_stack(v)) == Some(v),
{
    lemma_decode_encode_rec(v, Seq::empty());
    assert(Seq::<Seq<char>>::empty() + v =~= v);
}

/// The encoding is unambiguous: two stacks with the same column value are
/// the same stack.
pub proof fn lemma_encode_injective(v1: Seq<Seq<char>>, v2: Seq<Seq<char>>)
    requires
        encoded_stack(v1) == encoded_stack(v2),
    ensures
        v1 == v2,
{
    lemma_decode_encode(v1);
    lemma_decode_encode(v2);
}

} // verus!
