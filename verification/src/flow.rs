//! The creation flow: Received -> Validated -> UniquenessChecked ->
//! Enqueued -> Acknowledged. Validation and the admission decision are
//! pure; the cache probe and the queue push stand between them, performed
//! by the caller. A request failing validation or the uniqueness pre-check
//! ends at a client error; an accepted one is acknowledged immediately,
//! durability pending.
use vstd::prelude::*;
use vstd::string::StringExecFns;

use crate::dto::ApiError;
use crate::dto::CreationEvent;
use crate::dto::CriarPessoaDTO;
use crate::dto::CriarPessoaView;
use crate::dto::PessoaDTO;
use crate::dto::clone_stack;
use crate::dto::record_of;
use crate::jsonfmt::json_of;
use crate::jsonfmt::serialize_pessoa;
use crate::stackcodec::encode_stack;
use crate::stackcodec::encoded_stack;
use crate::validate::valid_payload;
use crate::validate::validate_payload;

verus! {

/// The nickname's existence-marker key in the cache tier's shared
/// keyspace: `"a/"` before the nickname.
pub open spec fn nickname_key_spec(apelido: Seq<char>) -> Seq<char> {
    "a/"@ + apelido
}

/// The sentinel stored under a nickname marker key; only its presence
/// matters, never its content.
pub open spec fn marker_sentinel() -> Seq<char> {
    "1"@
}

/// Builds the existence-marker key for a nickname.
pub fn nickname_key(apelido: &str) -> (r: String)
    ensures
        r@ == nickname_key_spec(apelido@),
{
    let mut r = String::new();
    r.append("a/");
    r.append(apelido);
    r
}

/// Relies on the uuid crate's `Uuid::new_v4` and its `Display`: a fresh
/// random version-4 UUID in hyphenated form, 36 characters. The value is
/// random, so nothing more is promised of it. Should the operating
/// system's random source fail, uuid's generator aborts the process; no
/// input reaches that, so no precondition can exclude it.
#[verifier::external_body]
pub fn new_uuid_string() -> (r: String)
    ensures
        r@.len() == 36,
{
    uuid::Uuid::new_v4().to_string()
}

/// What the uniqueness pre-check saw in the cache tier: the nickname's
/// marker present, or nothing usable — a miss and an unavailable cache
/// alike fall through, the pre-check being best-effort only.
#[derive(PartialEq, Eq, Structural, Clone, Copy, Debug)]
pub enum CacheProbe {
    Marked,
    Unmarked,
}

/// First step of the creation flow: validation, with no side effects. A
/// failing payload ends the request with `InvalidPayload` — a client
/// error, never a server error; a passing one hands back the marker key
/// whose presence the uniqueness pre-check probes next.
pub fn admit_request(payload: &CriarPessoaDTO) -> (r: Result<String, ApiError>)
    ensures
        r is Ok <==> valid_payload(payload@),
        r matches Ok(key) ==> key@ == nickname_key_spec(payload@.apelido),
        r is Err ==> r == Err::<String, ApiError>(ApiError::InvalidPayload),
{
    if validate_payload(payload) {
        Ok(nickname_key(payload.apelido.as_str()))
    } else {
        Err(ApiError::InvalidPayload)
    }
}

/// Everything an accepted creation hands back: the event for the queue,
/// the two synchronous cache writes, and the acknowledgment's Location.
pub struct AcceptedCreation {
    /// Goes on the ingestion queue, owned by it until the flusher pops it.
    pub event: CreationEvent,
    /// Cache value under the id key: the serialized record, verbatim what
    /// callers of the read path will receive.
    pub record_json: String,
    /// The nickname's existence-marker key, to be set to `marker_value`.
    pub marker_key: String,
    /// The sentinel written under `marker_key`.
    pub marker_value: String,
    /// The `Location` header value of the 201 acknowledgment.
    pub location: String,
}

/// Second step, after the cache probe: the admission decision. A marked
/// nickname ends the request with `DuplicateNickname` (422) and nothing is
/// enqueued; otherwise the creation is accepted — the caller performs the
/// cache writes, enqueues the event, and acknowledges with 201 and the
/// Location. Two racing requests can both probe before either marker
/// write: both are then accepted, and the flush settles who stays.
pub fn accept_creation(payload: CriarPessoaDTO, probe: CacheProbe, id: String) -> (r: Result<
    AcceptedCreation,
    ApiError,
>)
    requires
        valid_payload(payload@),
    ensures
        probe == CacheProbe::Marked ==> r == Err::<AcceptedCreation, ApiError>(
            ApiError::DuplicateNickname,
        ),
        probe == CacheProbe::Unmarked ==> (r matches Ok(acc) && {
            &&& acc.event.id@ == id@
            &&& acc.event.payload@ == payload@
            &&& acc.event@.stack_joined == match payload@.stack {
                Some(v) => Some(encoded_stack(v)),
                None => None,
            }
            &&& acc.record_json@ == json_of(record_of(payload@, id@))
            &&& acc.marker_key@ == nickname_key_spec(payload@.apelido)
            &&& acc.marker_value@ == marker_sentinel()
            &&& acc.location@ == "/pessoas/"@ + id@
        }),
{
    match probe {
        CacheProbe::Marked => Err(ApiError::DuplicateNickname),
        CacheProbe::Unmarked => {
            let stack_joined = match &payload.stack {
                Some(v) => Some(encode_stack(v)),
                None => None,
            };
            let record = PessoaDTO {
                id: id.clone(),
                apelido: payload.apelido.clone(),
                nome: payload.nome.clone(),
                nascimento: payload.nascimento.clone(),
                stack: clone_stack(&payload.stack),
            };
            let record_json = serialize_pessoa(&record);
            let marker_key = nickname_key(payload.apelido.as_str());
            let mut marker_value = String::new();
            marker_value.append("1");
            let mut location = String::new();
            location.append("/pessoas/");
            location.append(id.as_str());
            let event = CreationEvent { id, payload, stack_joined };
            Ok(
                AcceptedCreation {
                    event,
                    record_json,
                    marker_key,
                    marker_value,
                    location,
                },
            )
        },
    }
}

/// The cache model: keys to stored values, both key families in the one
/// keyspace.
pub open spec fn cache_lookup(cache: Map<Seq<char>, Seq<char>>, key: Seq<char>) -> Option<
    Seq<char>,
> {
    if cache.contains_key(key) {
        Some(cache[key])
    } else {
        None
    }
}

/// What the two synchronous cache writes of an accepted creation leave
/// behind: the serialized record under the id, the sentinel under the
/// nickname's marker key.
pub open spec fn cache_after_creation(
    cache: Map<Seq<char>, Seq<char>>,
    p: CriarPessoaView,
    id: Seq<char>,
) -> Map<Seq<char>, Seq<char>> {
    cache.insert(id, json_of(record_of(p, id))).insert(
        nickname_key_spec(p.apelido),
        marker_sentinel(),
    )
}

/// Read-after-write through the cache: from the moment an accepted
/// creation's synchronous cache writes land, a point lookup by the
/// returned id yields the serialized record of exactly the payload's
/// fields — durable or not. A generated id is 36 characters while a marker
/// key is at most 34 (`"a/"` and a nickname of at most 32), so the marker
/// write can never shadow the record.
pub proof fn lemma_read_after_write(
    cache: Map<Seq<char>, Seq<char>>,
    p: CriarPessoaView,
    id: Seq<char>,
)
    requires
        valid_payload(p),
        id.len() == 36,
    ensures
        cache_lookup(cache_after_creation(cache, p, id), id) == Some(json_of(record_of(p, id))),
{
    reveal_strlit("a/");
    assert(nickname_key_spec(p.apelido).len() <= 34);
    assert(nickname_key_spec(p.apelido) != id);
}

} // verus!
