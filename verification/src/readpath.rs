//! The read path's durable-store side. A point lookup consults the cache
//! first and returns a hit verbatim; on a miss the durable row decides:
//! absent is `NotFound`, present becomes the serialized record — the
//! response body and, best-effort, the value written back into the cache.
use vstd::prelude::*;

use crate::dto::ApiError;
use crate::dto::CriarPessoaView;
use crate::dto::PessoaDTO;
use crate::dto::PessoaView;
use crate::dto::StoredRow;
use crate::dto::StoredRowView;
use crate::dto::record_of;
use crate::jsonfmt::json_of;
use crate::jsonfmt::serialize_pessoa;
use crate::stackcodec::decode_stack;
use crate::stackcodec::decoded_stack;
use crate::stackcodec::encoded_stack;
use crate::stackcodec::lemma_decode_encode;

verus! {

/// The record a durable row denotes: its columns, with the stack column
/// decoded back into its elements. A NULL stack column stays an absent
/// stack; a column that is no encoding of any stack reads as absent too.
pub open spec fn record_from_row(r: StoredRowView) -> PessoaView {
    PessoaView {
        id: r.id,
        apelido: r.apelido,
        nome: r.nome,
        nascimento: r.nascimento,
        stack: match r.stack {
            Some(s) => decoded_stack(s),
            None => None,
        },
    }
}

impl PessoaDTO {
    /// The record of one durable row.
    pub fn from(row: &StoredRow) -> (r: PessoaDTO)
        ensures
            r@ == record_from_row(row@),
    {
        let stack = match &row.stack {
            None => None,
            Some(s) => decode_stack(s.as_str()),
        };
        PessoaDTO {
            id: row.id.clone(),
            apelido: row.apelido.clone(),
            nome: row.nome.clone(),
            nascimento: row.nascimento.clone(),
            stack,
        }
    }
}

/// Round trip through the durable store, for every payload: the row that
/// a flush writes for an accepted creation — the payload's fields under
/// the generated id, a present stack encoded into the column, an absent
/// one stored as NULL — reads back as exactly the record the creation
/// promised. Elements may hold any characters, an empty stack stays
/// empty, and an absent stack stays absent.
pub proof fn lemma_durable_round_trip(p: CriarPessoaView, id: Seq<char>)
    ensures
        record_from_row(
            StoredRowView {
                id: id,
                apelido: p.apelido,
                nome: p.nome,
                nascimento: p.nascimento,
                stack: match p.stack {
                    Some(v) => Some(encoded_stack(v)),
                    None => None,
                },
            },
        ) == record_of(p, id),
{
    match p.stack {
        Some(v) => lemma_decode_encode(v),
        None => {},
    }
}

/// After a cache miss, the durable row (or its absence) settles the point
/// lookup: no row is the lookup's `NotFound`; a row becomes the serialized
/// record, both the response body and the cache write-back value.
pub fn render_stored(row: &Option<StoredRow>) -> (r: Result<String, ApiError>)
    ensures
        row is None ==> r == Err::<String, ApiError>(ApiError::NotFound),
        row matches Some(rw) ==> (r matches Ok(body) && body@ == json_of(record_from_row(rw@))),
{
    match row {
        None => Err(ApiError::NotFound),
        Some(rw) => {
            let p = PessoaDTO::from(rw);
            Ok(serialize_pessoa(&p))
        },
    }
}

} // verus!
