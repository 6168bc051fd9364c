//! Plain data carried between the node's RPC answers and the pipeline:
//! header fields, response envelopes, and the client's operating mode.
//! The wire decoding itself happens outside; these types hold only what
//! the verified logic reads.

use vstd::prelude::*;

use crate::fetch::{spec_chunk, split_cell_chunks};
use crate::matrix::{MatrixDimensions, CELL_WITH_PROOF_SIZE};

verus! {

/// A block-to-content-identifier mapping in the shape it is persisted:
/// the identifier as a string, and whether this process computed it.
#[derive(Clone)]
pub struct BlockCidPersistablePair {
    pub cid: String,
    pub self_computed: bool,
}

/// The envelope fields every JSON-RPC answer carries.
#[derive(Debug)]
pub struct JsonRPCHeader {
    pub jsonrpc: String,
    pub id: u32,
}

/// Answer to a block-hash query: the hash as a string.
#[derive(Debug)]
pub struct BlockHashResponse {
    pub header: JsonRPCHeader,
    pub result: String,
}

/// Answer to a chain-name query.
#[derive(Debug)]
pub struct GetChainResponse {
    pub header: JsonRPCHeader,
    pub result: String,
}

/// One extrinsic's raw bytes.
#[derive(Debug, Clone)]
pub struct Extrinsic {
    pub data: Vec<u8>,
}

/// Commitment root of a block: the data matrix's size and the
/// concatenated per-row KZG commitments.
#[derive(Debug, Clone)]
pub struct ExtrinsicsRoot {
    pub cols: u16,
    pub rows: u16,
    pub hash: String,
    pub commitment: Vec<u8>,
}

/// A block header's digest entries, opaque to this client.
#[derive(Debug, Clone)]
pub struct Digest {
    pub logs: Vec<String>,
}

/// Index of application data within a block, passed through to the
/// application client untouched.
#[derive(Debug, Clone)]
pub struct AppDataIndex {
    pub size: u32,
    pub index: Vec<(u32, u32)>,
}

/// The block header fields this client consumes.
#[derive(Debug, Clone)]
pub struct Header {
    pub number: u64,
    pub extrinsics_root: ExtrinsicsRoot,
    pub parent_hash: String,
    pub state_root: String,
    pub digest: Digest,
    pub app_data_lookup: AppDataIndex,
}

/// First answer after subscribing to new headers.
#[derive(Debug)]
pub struct SubscriptionResponse {
    pub jsonrpc: String,
    pub id: u32,
    pub subscription_id: String,
}

/// Answer to a proof query: the flat cell bytes, 80 per queried cell.
#[derive(Debug)]
pub struct BlockProofResponse {
    pub header: JsonRPCHeader,
    pub result: Vec<u8>,
}

impl BlockProofResponse {
    /// The response split into one 80-byte buffer per queried cell.
    pub fn by_cell(&self, cells_len: usize) -> (chunks: Vec<Vec<u8>>)
        requires
            self.result@.len() == cells_len * CELL_WITH_PROOF_SIZE,
        ensures
            chunks@.len() == cells_len,
            forall|i: int|
                0 <= i < cells_len ==> #[trigger] chunks@[i]@ == spec_chunk(self.result@, i),
    {
        split_cell_chunks(&self.result, cells_len)
    }
}

/// What the pipeline takes from a finalized header: the block number,
/// its matrix dimensions, the application data index, and the
/// commitment buffer.
pub struct ClientMsg {
    pub number: u64,
    pub dimensions: MatrixDimensions,
    pub lookup: AppDataIndex,
    pub commitment: Vec<u8>,
}

impl From<Header> for ClientMsg {
    /// The matrix dimensions come from the extrinsics root; the row
    /// count there is the unextended one that `MatrixDimensions` holds.
    fn from(header: Header) -> (msg: ClientMsg) {
        ClientMsg {
            number: header.number,
            dimensions: MatrixDimensions {
                rows: header.extrinsics_root.rows,
                cols: header.extrinsics_root.cols,
            },
            lookup: header.app_data_lookup,
            commitment: header.extrinsics_root.commitment,
        }
    }
}

impl vstd::std_specs::convert::FromSpecImpl<Header> for ClientMsg {
    open spec fn obeys_from_spec() -> bool {
        true
    }

    open spec fn from_spec(header: Header) -> ClientMsg {
        ClientMsg {
            number: header.number,
            dimensions: MatrixDimensions {
                rows: header.extrinsics_root.rows,
                cols: header.extrinsics_root.cols,
            },
            lookup: header.app_data_lookup,
            commitment: header.extrinsics_root.commitment,
        }
    }
}

/// How the client runs: as a plain light client, or additionally
/// fetching one application's data.
pub enum Mode {
    LightClient,
    AppClient(u32),
}

impl From<Option<u32>> for Mode {
    /// Application identifier `0` and no identifier both mean the plain
    /// light client.
    fn from(app_id: Option<u32>) -> (mode: Mode) {
        match app_id {
            None => Mode::LightClient,
            Some(0) => Mode::LightClient,
            Some(id) => Mode::AppClient(id),
        }
    }
}

impl vstd::std_specs::convert::FromSpecImpl<Option<u32>> for Mode {
    open spec fn obeys_from_spec() -> bool {
        true
    }

    open spec fn from_spec(app_id: Option<u32>) -> Mode {
        match app_id {
            None => Mode::LightClient,
            Some(id) => if id == 0 {
                Mode::LightClient
            } else {
                Mode::AppClient(id)
            },
        }
    }
}

} // verus!
