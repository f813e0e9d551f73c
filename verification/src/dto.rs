//! The data model: creation payloads, person records, search parameters,
//! durable rows, and the creation events carried by the ingestion queue.
use vstd::prelude::*;

verus! {

/// A creation request's payload, as received from a caller.
pub struct CriarPessoaDTO {
    pub apelido: String,
    pub nome: String,
    pub nascimento: String,
    pub stack: Option<Vec<String>>,
}

/// Mathematical view of a creation payload.
pub struct CriarPessoaView {
    pub apelido: Seq<char>,
    pub nome: Seq<char>,
    pub nascimento: Seq<char>,
    pub stack: Option<Seq<Seq<char>>>,
}

impl View for CriarPessoaDTO {
    type V = CriarPessoaView;

    open spec fn view(&self) -> CriarPessoaView {
        CriarPessoaView {
            apelido: self.apelido@,
            nome: self.nome@,
            nascimento: self.nascimento@,
            stack: self.stack.deep_view(),
        }
    }
}

/// A person record, as served to callers and cached; immutable once created.
pub struct PessoaDTO {
    pub id: String,
    pub apelido: String,
    pub nome: String,
    pub nascimento: String,
    pub stack: Option<Vec<String>>,
}

/// Mathematical view of a person record.
pub struct PessoaView {
    pub id: Seq<char>,
    pub apelido: Seq<char>,
    pub nome: Seq<char>,
    pub nascimento: Seq<char>,
    pub stack: Option<Seq<Seq<char>>>,
}

impl View for PessoaDTO {
    type V = PessoaView;

    open spec fn view(&self) -> PessoaView {
        PessoaView {
            id: self.id@,
            apelido: self.apelido@,
            nome: self.nome@,
            nascimento: self.nascimento@,
            stack: self.stack.deep_view(),
        }
    }
}

/// The record that a creation with payload `p` and generated id `id` brings
/// into existence: the payload's fields under that id.
pub open spec fn record_of(p: CriarPessoaView, id: Seq<char>) -> PessoaView {
    PessoaView { id: id, apelido: p.apelido, nome: p.nome, nascimento: p.nascimento, stack: p.stack }
}

/// Query-string parameters of a search request.
pub struct ParametrosBusca {
    pub t: String,
}

/// A row of the durable store's one table, with the stack already encoded
/// into its single column (NULL for an absent stack).
pub struct StoredRow {
    pub id: String,
    pub apelido: String,
    pub nome: String,
    pub nascimento: String,
    pub stack: Option<String>,
}

/// Mathematical view of a durable row.
pub struct StoredRowView {
    pub id: Seq<char>,
    pub apelido: Seq<char>,
    pub nome: Seq<char>,
    pub nascimento: Seq<char>,
    pub stack: Option<Seq<char>>,
}

impl View for StoredRow {
    type V = StoredRowView;

    open spec fn view(&self) -> StoredRowView {
        StoredRowView {
            id: self.id@,
            apelido: self.apelido@,
            nome: self.nome@,
            nascimento: self.nascimento@,
            stack: match self.stack {
                Some(s) => Some(s@),
                None => None,
            },
        }
    }
}

/// An accepted-but-not-yet-durable creation, the unit placed on the
/// ingestion queue: the generated id, the validated payload, and the
/// stack already encoded into the durable store's column form.
pub struct CreationEvent {
    pub id: String,
    pub payload: CriarPessoaDTO,
    pub stack_joined: Option<String>,
}

/// Mathematical view of a creation event.
pub struct CreationEventView {
    pub id: Seq<char>,
    pub payload: CriarPessoaView,
    pub stack_joined: Option<Seq<char>>,
}

impl View for CreationEvent {
    type V = CreationEventView;

    open spec fn view(&self) -> CreationEventView {
        CreationEventView {
            id: self.id@,
            payload: self.payload@,
            stack_joined: match self.stack_joined {
                Some(s) => Some(s@),
                None => None,
            },
        }
    }
}

/// An equal copy of an optional stack.
pub fn clone_stack(st: &Option<Vec<String>>) -> (r: Option<Vec<String>>)
    ensures
        r.deep_view() == st.deep_view(),
{
    match st {
        None => None,
        Some(v) => {
            let mut w: Vec<String> = Vec::new();
            let mut i: usize = 0;
            while i < v.len()
                invariant
                    i <= v@.len(),
                    w@.len() == i,
                    w.deep_view() == v.deep_view().subrange(0, i as int),
                decreases v@.len() - i,
            {
                let ghost old_w = w@;
                let x = v[i].clone();
                assert(x@ == v.deep_view()[i as int]);
                w.push(x);
                proof {
                    assert(w@.len() == i + 1);
                    assert forall|k: int| 0 <= k < w@.len() implies w.deep_view()[k]
                        == v.deep_view().subrange(0, i + 1)[k] by {
                        assert(w.deep_view()[k] == w@[k]@);
                        if k < i {
                            assert(w@[k] == old_w[k]);
                            assert(old_w[k]@ == v.deep_view().subrange(0, i as int)[k]);
                        } else {
                            assert(w@[k]@ == x@);
                        }
                    }
                    assert(w.deep_view() =~= v.deep_view().subrange(0, i + 1));
                }
                i = i + 1;
            }
            assert(v.deep_view().subrange(0, v@.len() as int) =~= v.deep_view());
            Some(w)
        },
    }
}

impl CriarPessoaDTO {
    /// An equal copy of the payload.
    pub fn duplicate(&self) -> (r: CriarPessoaDTO)
        ensures
            r@ == self@,
    {
        CriarPessoaDTO {
            apelido: self.apelido.clone(),
            nome: self.nome.clone(),
            nascimento: self.nascimento.clone(),
            stack: clone_stack(&self.stack),
        }
    }
}

impl PessoaDTO {
    /// An equal copy of the record.
    pub fn duplicate(&self) -> (r: PessoaDTO)
        ensures
            r@ == self@,
    {
        PessoaDTO {
            id: self.id.clone(),
            apelido: self.apelido.clone(),
            nome: self.nome.clone(),
            nascimento: self.nascimento.clone(),
            stack: clone_stack(&self.stack),
        }
    }
}

impl CreationEvent {
    /// An equal copy of the event.
    pub fn duplicate(&self) -> (r: CreationEvent)
        ensures
            r@ == self@,
    {
        CreationEvent {
            id: self.id.clone(),
            payload: self.payload.duplicate(),
            stack_joined: match &self.stack_joined {
                Some(s) => Some(s.clone()),
                None => None,
            },
        }
    }
}

/// The views of a sequence of creation events.
pub open spec fn event_views(s: Seq<CreationEvent>) -> Seq<CreationEventView> {
    s.map_values(|e: CreationEvent| e@)
}

/// The views of a sequence of records.
pub open spec fn pessoa_views(s: Seq<PessoaDTO>) -> Seq<PessoaView> {
    s.map_values(|p: PessoaDTO| p@)
}

/// The errors of the service, by the taxonomy of its HTTP surface:
/// `InvalidPayload` answers 400, `DuplicateNickname` 422, `NotFound` 404;
/// the last two surface as server errors where they cannot be absorbed.
#[derive(PartialEq, Eq, Structural, Clone, Copy, Debug)]
pub enum ApiError {
    InvalidPayload,
    DuplicateNickname,
    NotFound,
    DependencyUnavailable,
    SerializationError,
}

} // verus!
