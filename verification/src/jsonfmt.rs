//! The serialization boundary: a person record rendered as the JSON object
//! served to callers and stored verbatim in the cache tier. Cache and store
//! serialization must match the public JSON contract exactly, field for
//! field, including the absent-vs-empty stack distinction.
use vstd::prelude::*;
use vstd::string::StrSliceExecFns;
use vstd::string::StringExecFns;

use crate::dto::PessoaDTO;
use crate::dto::PessoaView;
use crate::dto::pessoa_views;
use crate::text::push_char;
use crate::text::to_char_vec;

verus! {

/// The lowercase hexadecimal digit of value `d`.
pub open spec fn hex_digit(d: int) -> char {
    if d == 0 {
        '0'
    } else if d == 1 {
        '1'
    } else if d == 2 {
        '2'
    } else if d == 3 {
        '3'
    } else if d == 4 {
        '4'
    } else if d == 5 {
        '5'
    } else if d == 6 {
        '6'
    } else if d == 7 {
        '7'
    } else if d == 8 {
        '8'
    } else if d == 9 {
        '9'
    } else if d == 10 {
        'a'
    } else if d == 11 {
        'b'
    } else if d == 12 {
        'c'
    } else if d == 13 {
        'd'
    } else if d == 14 {
        'e'
    } else {
        'f'
    }
}

/// How one character appears inside a JSON string literal: quote and
/// backslash escaped, control characters as their short escapes or as
/// `\u00..`, everything else verbatim.
pub open spec fn escaped_char(c: char) -> Seq<char> {
    if c == '"' {
        seq!['\\', '"']
    } else if c == '\\' {
        seq!['\\', '\\']
    } else if c as int == 8 {
        seq!['\\', 'b']
    } else if c == '\t' {
        seq!['\\', 't']
    } else if c == '\n' {
        seq!['\\', 'n']
    } else if c as int == 12 {
        seq!['\\', 'f']
    } else if c == '\r' {
        seq!['\\', 'r']
    } else if (c as int) < 32 {
        seq!['\\', 'u', '0', '0', hex_digit(c as int / 16), hex_digit(c as int % 16)]
    } else {
        seq![c]
    }
}

/// The body of a JSON string literal holding the characters of `s`.
pub open spec fn json_escaped(s: Seq<char>) -> Seq<char>
    decreases s.len(),
{
    if s.len() == 0 {
        Seq::empty()
    } else {
        escaped_char(s[0]) + json_escaped(s.drop_first())
    }
}

/// The JSON string literal holding the characters of `s`.
pub open spec fn json_string(s: Seq<char>) -> Seq<char> {
    seq!['"'] + json_escaped(s) + seq!['"']
}

/// The comma-separated JSON string literals of the elements of `v`.
pub open spec fn json_string_list(v: Seq<Seq<char>>) -> Seq<char>
    decreases v.len(),
{
    if v.len() == 0 {
        Seq::empty()
    } else if v.len() == 1 {
        json_string(v[0])
    } else {
        json_string(v[0]) + seq![','] + json_string_list(v.drop_first())
    }
}

/// How a stack appears in the JSON object: `null` when absent, else an
/// array of string literals in order. An absent stack is distinct from an
/// empty one, which appears as `[]`.
pub open spec fn json_stack(st: Option<Seq<Seq<char>>>) -> Seq<char> {
    match st {
        None => "null"@,
        Some(v) => seq!['['] + json_string_list(v) + seq![']'],
    }
}

/// The JSON object for a person record: the five fields, in the public
/// contract's order, each a JSON string or the stack form above.
pub open spec fn json_of(p: PessoaView) -> Seq<char> {
    "{\"id\":"@ + json_string(p.id) + ",\"apelido\":"@ + json_string(p.apelido) + ",\"nome\":"@
        + json_string(p.nome) + ",\"nascimento\":"@ + json_string(p.nascimento) + ",\"stack\":"@
        + json_stack(p.stack) + "}"@
}

proof fn lemma_json_escaped_push(s: Seq<char>, c: char)
    ensures
        json_escaped(s.push(c)) == json_escaped(s) + escaped_char(c),
    decreases s.len(),
{
    if s.len() == 0 {
        reveal_with_fuel(json_escaped, 2);
        assert(s.push(c)[0] == c);
        assert(s =~= Seq::<char>::empty());
        assert(s.push(c).drop_first() =~= Seq::<char>::empty());
        assert(json_escaped(s.push(c)) =~= json_escaped(s) + escaped_char(c));
    } else {
        assert(s.push(c).drop_first() =~= s.drop_first().push(c));
        lemma_json_escaped_push(s.drop_first(), c);
        assert(json_escaped(s.push(c)) =~= json_escaped(s) + escaped_char(c));
    }
}

proof fn lemma_json_string_list_push(v: Seq<Seq<char>>, x: Seq<char>)
    ensures
        v.len() == 0 ==> json_string_list(v.push(x)) == json_string(x),
        v.len() > 0 ==> json_string_list(v.push(x)) == json_string_list(v) + seq![',']
            + json_string(x),
    decreases v.len(),
{
    if v.len() == 0 {
        assert(v.push(x)[0] == x);
    } else {
        assert(v.push(x).drop_first() =~= v.drop_first().push(x));
        lemma_json_string_list_push(v.drop_first(), x);
        if v.len() == 1 {
            assert(json_string_list(v.push(x)) =~= json_string_list(v) + seq![',']
                + json_string(x));
        } else {
            assert(json_string_list(v.push(x)) =~= json_string_list(v) + seq![',']
                + json_string(x));
        }
    }
}

/// The lowercase hexadecimal digit character of `d`.
fn hex_char(d: u32) -> (c: char)
    requires
        d < 16,
    ensures
        c == hex_digit(d as int),
{
    match d {
        0 => '0',
        1 => '1',
        2 => '2',
        3 => '3',
        4 => '4',
        5 => '5',
        6 => '6',
        7 => '7',
        8 => '8',
        9 => '9',
        10 => 'a',
        11 => 'b',
        12 => 'c',
        13 => 'd',
        14 => 'e',
        _ => 'f',
    }
}

/// Appends the JSON escape of one character.
fn append_escaped_char(out: &mut String, c: char)
    ensures
        final(out)@ == old(out)@ + escaped_char(c),
{
    if c == '"' {
        push_char(out, '\\');
        push_char(out, '"');
    } else if c == '\\' {
        push_char(out, '\\');
        push_char(out, '\\');
    } else if c as u32 == 8 {
        push_char(out, '\\');
        push_char(out, 'b');
    } else if c == '\t' {
        push_char(out, '\\');
        push_char(out, 't');
    } else if c == '\n' {
        push_char(out, '\\');
        push_char(out, 'n');
    } else if c as u32 == 12 {
        push_char(out, '\\');
        push_char(out, 'f');
    } else if c == '\r' {
        push_char(out, '\\');
        push_char(out, 'r');
    } else if (c as u32) < 32 {
        push_char(out, '\\');
        push_char(out, 'u');
        push_char(out, '0');
        push_char(out, '0');
        let n = c as u32;
        push_char(out, hex_char(n / 16));
        push_char(out, hex_char(n % 16));
    } else {
        push_char(out, c);
    }
    assert(final(out)@ =~= old(out)@ + escaped_char(c));
}

/// Appends the body of the JSON string literal for `s`.
fn append_json_escaped(out: &mut String, s: &str)
    ensures
        final(out)@ == old(out)@ + json_escaped(s@),
{
    let cs = to_char_vec(s);
    let ghost start = out@;
    let mut i: usize = 0;
    while i < cs.len()
        invariant
            cs@ == s@,
            i <= cs@.len(),
            out@ == start + json_escaped(s@.subrange(0, i as int)),
        decreases cs@.len() - i,
    {
        append_escaped_char(out, cs[i]);
        proof {
            lemma_json_escaped_push(s@.subrange(0, i as int), cs@[i as int]);
            assert(s@.subrange(0, i + 1) =~= s@.subrange(0, i as int).push(cs@[i as int]));
        }
        i = i + 1;
    }
    assert(s@.subrange(0, cs@.len() as int) =~= s@);
    assert(json_escaped(Seq::<char>::empty()) == Seq::<char>::empty());
    assert(start + json_escaped(s@.subrange(0, 0)) =~= start);
}

/// Appends the JSON string literal for `s`.
fn append_json_string(out: &mut String, s: &str)
    ensures
        final(out)@ == old(out)@ + json_string(s@),
{
    push_char(out, '"');
    append_json_escaped(out, s);
    push_char(out, '"');
    assert(final(out)@ =~= old(out)@ + json_string(s@));
}

/// Appends the JSON form of the stack: `null` when absent, else the array.
fn append_json_stack(out: &mut String, st: &Option<Vec<String>>)
    ensures
        final(out)@ == old(out)@ + json_stack(st.deep_view()),
{
    match st {
        None => {
            out.append("null");
        },
        Some(v) => {
            let ghost start = out@;
            push_char(out, '[');
            let mut i: usize = 0;
            while i < v.len()
                invariant
                    st.deep_view() == Some(v.deep_view()),
                    i <= v@.len(),
                    out@ == start + seq!['['] + json_string_list(v.deep_view().subrange(0, i as int)),
                decreases v@.len() - i,
            {
                if i > 0 {
                    push_char(out, ',');
                }
                append_json_string(out, v[i].as_str());
                proof {
                    let pre = v.deep_view().subrange(0, i as int);
                    lemma_json_string_list_push(pre, v@[i as int]@);
                    assert(v.deep_view()[i as int] == v@[i as int]@);
                    assert(v.deep_view().subrange(0, i + 1) =~= pre.push(v@[i as int]@));
                    if i == 0 {
                        assert(out@ =~= start + seq!['['] + json_string_list(
                            v.deep_view().subrange(0, i + 1),
                        ));
                    } else {
                        assert(out@ =~= start + seq!['['] + json_string_list(
                            v.deep_view().subrange(0, i + 1),
                        ));
                    }
                }
                i = i + 1;
            }
            push_char(out, ']');
            proof {
                assert(v.deep_view().subrange(0, v@.len() as int) =~= v.deep_view());
                assert(final(out)@ =~= old(out)@ + json_stack(st.deep_view()));
            }
        },
    }
}

/// Renders the record as the JSON object of the public contract; this one
/// string is what the cache holds and what callers receive.
pub fn serialize_pessoa(p: &PessoaDTO) -> (r: String)
    ensures
        r@ == json_of(p@),
{
    let mut out = String::new();
    out.append("{\"id\":");
    append_json_string(&mut out, p.id.as_str());
    out.append(",\"apelido\":");
    append_json_string(&mut out, p.apelido.as_str());
    out.append(",\"nome\":");
    append_json_string(&mut out, p.nome.as_str());
    out.append(",\"nascimento\":");
    append_json_string(&mut out, p.nascimento.as_str());
    out.append(",\"stack\":");
    append_json_stack(&mut out, &p.stack);
    out.append("}");
    assert(out@ =~= json_of(p@));
    out
}

/// The comma-separated JSON objects of the records of `ps`.
pub open spec fn json_objects(ps: Seq<PessoaView>) -> Seq<char>
    decreases ps.len(),
{
    if ps.len() == 0 {
        Seq::empty()
    } else if ps.len() == 1 {
        json_of(ps[0])
    } else {
        json_of(ps[0]) + seq![','] + json_objects(ps.drop_first())
    }
}

/// The JSON array of records: the search response body's form.
pub open spec fn json_list_of(ps: Seq<PessoaView>) -> Seq<char> {
    seq!['['] + json_objects(ps) + seq![']']
}

proof fn lemma_json_objects_push(ps: Seq<PessoaView>, p: PessoaView)
    ensures
        ps.len() == 0 ==> json_objects(ps.push(p)) == json_of(p),
        ps.len() > 0 ==> json_objects(ps.push(p)) == json_objects(ps) + seq![','] + json_of(p),
    decreases ps.len(),
{
    if ps.len() == 0 {
        assert(ps.push(p)[0] == p);
    } else {
        assert(ps.push(p).drop_first() =~= ps.drop_first().push(p));
        lemma_json_objects_push(ps.drop_first(), p);
        if ps.len() == 1 {
            assert(json_objects(ps.push(p)) =~= json_objects(ps) + seq![','] + json_of(p));
        } else {
            assert(json_objects(ps.push(p)) =~= json_objects(ps) + seq![','] + json_of(p));
        }
    }
}

/// Renders a list of records as the JSON array of their objects, in
/// order: the whole search response body, under the same wire contract as
/// the single record.
pub fn serialize_pessoas(ps: &Vec<PessoaDTO>) -> (r: String)
    ensures
        r@ == json_list_of(pessoa_views(ps@)),
{
    let mut out = String::new();
    push_char(&mut out, '[');
    let ghost all = pessoa_views(ps@);
    let mut i: usize = 0;
    proof {
        assert(all.subrange(0, 0) =~= Seq::<PessoaView>::empty());
        assert(out@ =~= seq!['['] + json_objects(all.subrange(0, 0)));
    }
    while i < ps.len()
        invariant
            all == pessoa_views(ps@),
            all.len() == ps@.len(),
            i <= ps@.len(),
            out@ == seq!['['] + json_objects(all.subrange(0, i as int)),
        decreases ps@.len() - i,
    {
        if i > 0 {
            push_char(&mut out, ',');
        }
        let body = serialize_pessoa(&ps[i]);
        out.append(body.as_str());
        proof {
            let pre = all.subrange(0, i as int);
            lemma_json_objects_push(pre, all[i as int]);
            assert(all[i as int] == ps@[i as int]@);
            assert(all.subrange(0, i + 1) =~= pre.push(all[i as int]));
            if i == 0 {
                assert(out@ =~= seq!['['] + json_objects(all.subrange(0, i + 1)));
            } else {
                assert(out@ =~= seq!['['] + json_objects(all.subrange(0, i + 1)));
            }
        }
        i = i + 1;
    }
    push_char(&mut out, ']');
    proof {
        assert(all.subrange(0, ps@.len() as int) =~= all);
        assert(out@ =~= json_list_of(pessoa_views(ps@)));
    }
    out
}

} // verus!
