//! The bulk-insert statement of a flush cycle: one `INSERT ... ON CONFLICT
//! DO NOTHING;` per surviving event, concatenated into the single batch
//! that one transaction executes. Value quoting and the insert skeleton
//! come from the sql_builder crate, behind trusted wrappers with exact
//! contracts.
use vstd::prelude::*;
use vstd::string::StrSliceExecFns;
use vstd::string::StringExecFns;

use crate::dto::CreationEvent;
use crate::dto::CreationEventView;
use crate::dto::event_views;

verus! {

/// `s` with every single quote doubled, the SQL literal escape.
pub open spec fn sql_escaped(s: Seq<char>) -> Seq<char>
    decreases s.len(),
{
    if s.len() == 0 {
        Seq::empty()
    } else if s[0] == '\'' {
        seq!['\'', '\''] + sql_escaped(s.drop_first())
    } else {
        seq![s[0]] + sql_escaped(s.drop_first())
    }
}

/// `s` as a SQL string literal: wrapped in single quotes, quotes doubled.
pub open spec fn sql_quoted(s: Seq<char>) -> Seq<char> {
    seq!['\''] + sql_escaped(s) + seq!['\'']
}

/// Relies on sql_builder's `quote`: wraps the string in single quotes,
/// doubling each single quote inside it.
#[verifier::external_body]
fn sql_quote(s: &str) -> (r: String)
    ensures
        r@ == sql_quoted(s@),
{
    sql_builder::quote(s)
}

/// The insert statement over already-quoted values, exactly as
/// sql_builder renders it for one row of the PESSOAS table.
pub open spec fn insert_stmt(
    qid: Seq<char>,
    qapelido: Seq<char>,
    qnome: Seq<char>,
    qnascimento: Seq<char>,
    qstack: Seq<char>,
) -> Seq<char> {
    "INSERT INTO PESSOAS (ID, APELIDO, NOME, NASCIMENTO, STACK) VALUES ("@ + qid + ", "@
        + qapelido + ", "@ + qnome + ", "@ + qnascimento + ", "@ + qstack + ");"@
}

/// Relies on sql_builder's `SqlBuilder::insert_into`, `field`, `values`
/// and `sql`: renders `INSERT INTO <table> (<fields>) VALUES (<values>);`
/// with the fields and values comma-joined; with a table and one values
/// row its `sql` cannot fail (see sql_builder's `sql_insert`).
#[verifier::external_body]
fn insert_row_sql(
    qid: &str,
    qapelido: &str,
    qnome: &str,
    qnascimento: &str,
    qstack: &str,
) -> (r: String)
    ensures
        r@ == insert_stmt(qid@, qapelido@, qnome@, qnascimento@, qstack@),
{
    let mut b = sql_builder::SqlBuilder::insert_into("PESSOAS");
    b.field("ID").field("APELIDO").field("NOME").field("NASCIMENTO").field("STACK");
    b.values(&[qid, qapelido, qnome, qnascimento, qstack]);
    b.sql().unwrap()
}

/// How the stack column stands in an event's row: the encoded stack as a
/// quoted SQL literal, or the SQL NULL where the stack is absent — so an
/// absent stack is stored as no value at all, distinct from the empty
/// stack's empty string.
pub open spec fn stack_value(o: Option<Seq<char>>) -> Seq<char> {
    match o {
        Some(s) => sql_quoted(s),
        None => "NULL"@,
    }
}

/// The batch statement for one event's row: the insert, its trailing
/// semicolon replaced by the conflict-skipping clause, so rows violating
/// the durable uniqueness constraint are dropped, never errored.
pub open spec fn row_stmt(ev: CreationEventView) -> Seq<char> {
    let base = insert_stmt(
        sql_quoted(ev.id),
        sql_quoted(ev.payload.apelido),
        sql_quoted(ev.payload.nome),
        sql_quoted(ev.payload.nascimento),
        stack_value(ev.stack_joined),
    );
    base.subrange(0, base.len() - 1) + "ON CONFLICT DO NOTHING;"@
}

/// Appends the batch statement of one event's row.
fn append_row_stmt(out: &mut String, ev: &CreationEvent)
    ensures
        final(out)@ == old(out)@ + row_stmt(ev@),
{
    let qid = sql_quote(ev.id.as_str());
    let qapelido = sql_quote(ev.payload.apelido.as_str());
    let qnome = sql_quote(ev.payload.nome.as_str());
    let qnascimento = sql_quote(ev.payload.nascimento.as_str());
    let qstack = match &ev.stack_joined {
        Some(s) => sql_quote(s.as_str()),
        None => {
            let mut null_word = String::new();
            null_word.append("NULL");
            null_word
        },
    };
    let row = insert_row_sql(
        qid.as_str(),
        qapelido.as_str(),
        qnome.as_str(),
        qnascimento.as_str(),
        qstack.as_str(),
    );
    proof {
        reveal_strlit(");");
        assert(row@.len() >= 2);
    }
    let n = row.as_str().unicode_len();
    let body = row.as_str().substring_char(0, n - 1);
    out.append(body);
    out.append("ON CONFLICT DO NOTHING;");
    assert(final(out)@ =~= old(out)@ + row_stmt(ev@));
}

/// The whole batch: the row statements of the events, in order.
pub open spec fn batch_sql_spec(evs: Seq<CreationEventView>) -> Seq<char>
    decreases evs.len(),
{
    if evs.len() == 0 {
        Seq::empty()
    } else {
        row_stmt(evs[0]) + batch_sql_spec(evs.drop_first())
    }
}

proof fn lemma_batch_sql_push(evs: Seq<CreationEventView>, ev: CreationEventView)
    ensures
        batch_sql_spec(evs.push(ev)) == batch_sql_spec(evs) + row_stmt(ev),
    decreases evs.len(),
{
    if evs.len() == 0 {
        reveal_with_fuel(batch_sql_spec, 2);
        assert(evs.push(ev)[0] == ev);
        assert(evs =~= Seq::<CreationEventView>::empty());
        assert(evs.push(ev).drop_first() =~= Seq::<CreationEventView>::empty());
        assert(batch_sql_spec(evs.push(ev)) =~= batch_sql_spec(evs) + row_stmt(ev));
    } else {
        assert(evs.push(ev).drop_first() =~= evs.drop_first().push(ev));
        lemma_batch_sql_push(evs.drop_first(), ev);
        assert(batch_sql_spec(evs.push(ev)) =~= batch_sql_spec(evs) + row_stmt(ev));
    }
}

/// Builds the single bulk statement naming all the given events' rows,
/// each with its conflict-skipping clause, in order.
pub fn batch_sql(evs: &Vec<CreationEvent>) -> (r: String)
    ensures
        r@ == batch_sql_spec(event_views(evs@)),
{
    let mut out = String::new();
    let mut i: usize = 0;
    while i < evs.len()
        invariant
            i <= evs@.len(),
            out@ == batch_sql_spec(event_views(evs@).subrange(0, i as int)),
        decreases evs@.len() - i,
    {
        append_row_stmt(&mut out, &evs[i]);
        proof {
            let pre = event_views(evs@).subrange(0, i as int);
            lemma_batch_sql_push(pre, evs@[i as int]@);
            assert(event_views(evs@)[i as int] == evs@[i as int]@);
            assert(event_views(evs@).subrange(0, i + 1) =~= pre.push(evs@[i as int]@));
        }
        i = i + 1;
    }
    assert(event_views(evs@).subrange(0, evs@.len() as int) =~= event_views(evs@));
    out
}

} // verus!
