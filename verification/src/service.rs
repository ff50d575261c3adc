//! What the service around the pipeline decides for each request: how a
//! request is named in the logs, what it says of the contract's whereabouts,
//! where the list of compilers comes from, and under which labels the
//! outcome is counted.

use vstd::prelude::*;
use vstd::string::*;
use vstd::utf8::encode_utf8;
use crate::hex::{display_bytes, hex_text, lemma_display_then_normalize, lemma_hex_text_is_ascii, normalized};
use crate::outcome::{Reply, Status};

verus! {

/// The length of a request identifier before it is put in display form.
pub const REQUEST_ID_SIZE: usize = 16;

/// Where the contract lives, as far as the caller said. Informational: it
/// never takes part in matching.
#[derive(Debug)]
pub struct RequestMetadata {
    pub chain_id: Option<String>,
    pub contract_address: Option<String>,
}

/// The contract to ask the fallback provider about.
#[derive(Debug)]
pub struct Target {
    pub chain_id: String,
    pub contract_address: String,
}

/// The two shapes in which sources are submitted.
#[derive(Clone, Copy, Debug, PartialEq, Eq, Structural)]
pub enum InputShape {
    MultiPart,
    StandardJson,
}

/// Where the list of compiler versions is fetched from.
#[derive(Debug)]
pub enum FetcherSettings {
    /// A list served under a URL.
    List(String),
    /// A bucket of an object store, by its name.
    S3(String),
}

/// The labels under which a processed request is counted.
#[derive(Debug)]
pub struct MetricLabels {
    pub chain_id: String,
    pub language: &'static str,
    pub status: Status,
    pub shape: InputShape,
}

/// A version-4 UUID as `uuid::Uuid::new_v4` draws it, by its sixteen bytes.
/// They are random but for the version in the upper half of the seventh
/// byte and the variant in the top two bits of the ninth. Trusted, not
/// proved. The call fails only where the system has no randomness to give.
#[verifier::external_body]
fn random_uuid_bytes() -> (raw: Vec<u8>)
    ensures
        raw@.len() == REQUEST_ID_SIZE,
        raw@[6] / 16 == 4,
        raw@[8] / 64 == 2,
{
    uuid::Uuid::new_v4().as_bytes().to_vec()
}

/// `id` is the display form of `raw`, the bytes of a version-4 UUID.
pub open spec fn is_request_id(id: Seq<char>, raw: Seq<u8>) -> bool {
    &&& raw.len() == REQUEST_ID_SIZE
    &&& raw[6] / 16 == 4
    &&& raw[8] / 64 == 2
    &&& id == hex_text(raw)
}

/// The name of a request whose identifier has the given bytes: their
/// display form.
pub fn request_id_of(raw: &[u8]) -> (id: String)
    ensures
        id@ == hex_text(raw@),
        id@.len() == 2 + 2 * raw@.len(),
{
    display_bytes(raw)
}

/// Draws the name under which a request appears in the logs: a fresh
/// random UUID in display form.
pub fn request_id() -> (id: String)
    ensures
        exists|raw: Seq<u8>| is_request_id(id@, raw),
        id@.len() == 2 + 2 * REQUEST_ID_SIZE,
{
    let raw = random_uuid_bytes();
    let id = request_id_of(raw.as_slice());
    assert(is_request_id(id@, raw@));
    id
}

/// A request identifier reads back as the sixteen bytes it was made from.
pub proof fn lemma_request_id_reads_back(id: Seq<char>, raw: Seq<u8>)
    requires
        is_request_id(id, raw),
    ensures
        normalized(encode_utf8(id)) == Some(raw),
{
    lemma_hex_text_is_ascii(raw);
    lemma_display_then_normalize(raw);
}

/// The chain that a request names; empty where it names none.
pub open spec fn chain_id_text(metadata: Option<RequestMetadata>) -> Seq<char> {
    match metadata {
        Some(RequestMetadata { chain_id: Some(chain), .. }) => chain@,
        _ => Seq::empty(),
    }
}

/// The address that a request names; empty where it names none.
pub open spec fn contract_address_text(metadata: Option<RequestMetadata>) -> Seq<char> {
    match metadata {
        Some(RequestMetadata { contract_address: Some(address), .. }) => address@,
        _ => Seq::empty(),
    }
}

/// The chain that a request names, or the empty text.
pub fn chain_id_of(metadata: &Option<RequestMetadata>) -> (chain: String)
    ensures
        chain@ == chain_id_text(*metadata),
{
    match metadata {
        Some(RequestMetadata { chain_id: Some(chain), .. }) => chain.clone(),
        _ => String::new(),
    }
}

/// The address that a request names, or the empty text.
pub fn contract_address_of(metadata: &Option<RequestMetadata>) -> (address: String)
    ensures
        address@ == contract_address_text(*metadata),
{
    match metadata {
        Some(RequestMetadata { contract_address: Some(address), .. }) => address.clone(),
        _ => String::new(),
    }
}

/// The contract to ask the fallback provider about: the request must name
/// both the chain and the address.
pub fn fallback_target(metadata: &Option<RequestMetadata>) -> (target: Option<Target>)
    ensures
        match *metadata {
            Some(RequestMetadata { chain_id: Some(chain), contract_address: Some(address) }) => target
                == Some(Target { chain_id: chain, contract_address: address }),
            _ => target.is_none(),
        },
{
    match metadata {
        Some(RequestMetadata { chain_id: Some(chain), contract_address: Some(address) }) => Some(
            Target { chain_id: chain.clone(), contract_address: address.clone() },
        ),
        _ => None,
    }
}

impl InputShape {
    pub open spec fn name_text(self) -> Seq<char> {
        match self {
            InputShape::MultiPart => "multi-part"@,
            InputShape::StandardJson => "standard-json"@,
        }
    }

    /// The name under which requests of this shape are counted.
    pub fn name(&self) -> (name: &'static str)
        ensures
            name@ == self.name_text(),
    {
        match self {
            InputShape::MultiPart => "multi-part",
            InputShape::StandardJson => "standard-json",
        }
    }
}

/// The URL of the list of compiler versions. Only a list can be fetched
/// from; an object store is refused.
pub fn list_url_of(fetcher: FetcherSettings) -> (url: Result<String, String>)
    ensures
        match fetcher {
            FetcherSettings::List(list_url) => url == Ok::<String, String>(list_url),
            FetcherSettings::S3(_) => url matches Err(reason) && reason@
                == "S3 fetcher for vyper not supported"@,
        },
{
    match fetcher {
        FetcherSettings::List(list_url) => Ok(list_url),
        FetcherSettings::S3(_) => Err(String::from_str("S3 fetcher for vyper not supported")),
    }
}

/// The labels under which a reply is counted. Only answers are counted;
/// a transport-level failure is not.
pub fn count_labels(reply: &Reply, chain_id: &String, shape: InputShape) -> (labels: Option<
    MetricLabels,
>)
    ensures
        match *reply {
            Reply::Response(response) => labels matches Some(found) && found.chain_id
                == *chain_id && found.language@ == "vyper"@ && found.status == response.status
                && found.shape == shape,
            _ => labels.is_none(),
        },
{
    match reply {
        Reply::Response(response) => Some(
            MetricLabels {
                chain_id: chain_id.clone(),
                language: "vyper",
                status: response.status,
                shape,
            },
        ),
        _ => None,
    }
}

} // verus!
