//! Where the chunks of an accepted sound file lie.
use crate::audio::export_wav;
use vstd::prelude::*;

verus! {

/// Where a chunk ends, its padding counted.
pub open spec fn chunk_end(chunk: export_wav::ChunkModel) -> nat {
    chunk.offset + 8 + chunk.size + chunk.size % 2
}

/// Chunks follow one another without touching, carry the names that the file has at
/// their offsets, and end by some position.
pub open spec fn apart(file: Seq<u8>, chunks: Seq<export_wav::ChunkModel>, by: nat) -> bool {
    &&& forall|i: int|
        #![trigger chunks[i]]
        0 <= i < chunks.len() ==> 12 <= chunks[i].offset && chunk_end(chunks[i]) <= by
            && chunks[i].offset + 8 <= file.len() && chunks[i].id == file.subrange(
            chunks[i].offset as int,
            chunks[i].offset + 4int,
        )
    &&& forall|i: int, j: int|
        #![trigger chunks[i], chunks[j]]
        0 <= i < j < chunks.len() ==> chunk_end(chunks[i]) <= chunks[j].offset
}

/// Whether the chunk at a place holds the samples.
pub open spec fn is_data(
    chunks: Seq<export_wav::ChunkModel>,
    d: int,
    data_offset: nat,
    data_len: nat,
) -> bool {
    &&& 0 <= d < chunks.len()
    &&& chunks[d].id == export_wav::name('d', 'a', 't', 'a')
    &&& chunks[d].offset + 8 == data_offset
    &&& chunks[d].size == data_len
}

spec fn orderly(file: Seq<u8>, scan: export_wav::ScanModel) -> bool {
    &&& 12 <= scan.position <= file.len()
    &&& apart(file, scan.chunks, scan.position)
    &&& scan.data matches Some((at, len)) ==> exists|d: int| #[trigger]
        is_data(scan.chunks, d, at, len)
}

proof fn step_stays_orderly(
    file: Seq<u8>,
    root: export_wav::RootModel,
    scan: export_wav::ScanModel,
)
    requires
        orderly(file, scan),
        export_wav::scan_step(file, root, scan) is Ok,
    ensures
        orderly(file, export_wav::scan_step(file, root, scan)->Ok_0),
{
    let next = export_wav::scan_step(file, root, scan)->Ok_0;
    let last = next.chunks.last();
    assert(next.chunks =~= scan.chunks.push(last));
    if let Some((at, len)) = next.data {
        if let Some((before, size)) = scan.data {
            let d = choose|d: int| is_data(scan.chunks, d, before, size);
            assert(is_data(next.chunks, d, at, len));
        } else {
            assert(is_data(next.chunks, scan.chunks.len() as int, at, len));
        }
    }
}

proof fn rest_stays_orderly(
    file: Seq<u8>,
    root: export_wav::RootModel,
    scan: export_wav::ScanModel,
)
    requires
        orderly(file, scan),
        export_wav::scan_rest(file, root, scan) is Ok,
    ensures
        orderly(file, export_wav::scan_rest(file, root, scan)->Ok_0),
    decreases file.len() - scan.position,
{
    if scan.position < file.len() {
        step_stays_orderly(file, root, scan);
        let next = export_wav::scan_step(file, root, scan)->Ok_0;
        rest_stays_orderly(file, root, next);
    }
}

/// The chunks of an accepted file lie apart within it, and one of them holds the
/// samples.
pub proof fn accepted_chunks_are_apart(file: Seq<u8>)
    requires
        export_wav::inspection(file) is Ok,
    ensures
        ({
            let info = export_wav::inspection(file)->Ok_0;
            &&& apart(file, info.chunks, file.len())
            &&& exists|d: int| #[trigger]
                is_data(info.chunks, d, info.data_offset, info.data_len)
        }),
{
    let root = export_wav::root_of(file)->Ok_0;
    rest_stays_orderly(file, root, export_wav::scan_start(root));
}

} // verus!
