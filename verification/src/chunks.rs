//! How the chunks of a session are named in storage, and in what order a
//! listing of that storage is put together.

use vstd::prelude::*;
use vstd::string::StrSliceExecFns;
use crate::assembly::{assembled, joined_in, lemma_assembled_in_ascending_order, Chunks};
use crate::decimal::{decimal, index_text, lemma_decimal_digits, lemma_decimal_round_trip, parse_index, parsed_index};
use crate::order::{ascending, insert_ascending, lemma_ascending_unique, lemma_ascending_with};
use crate::text::{joined, str_eq, texts};

verus! {

/// The name under which the chunk with a given index is stored:
/// `chunk_` and the index in decimal.
pub open spec fn chunk_name(index: nat) -> Seq<char> {
    "chunk_"@ + decimal(index)
}

/// Whether a listing of stored names holds the name of the chunk `index`.
pub open spec fn lists_chunk(names: Seq<Seq<char>>, index: usize) -> bool {
    exists|k: int| 0 <= k < names.len() && #[trigger] names[k] == chunk_name(index as nat)
}

/// Whether `order` is the order in which the chunks of a listing are put
/// together: the indices of the chunks that the listing names, ascending.
pub open spec fn is_chunk_order(names: Seq<Seq<char>>, order: Seq<usize>) -> bool {
    &&& ascending(order)
    &&& forall|i: usize| order.contains(i) <==> lists_chunk(names, i)
}

/// The order in which the chunks of a listing are put together.
pub open spec fn chunk_order(names: Seq<Seq<char>>) -> Seq<usize> {
    choose|order: Seq<usize>| is_chunk_order(names, order)
}

/// The names under which the chunks of `order` are stored, in that order.
pub open spec fn chunk_names(order: Seq<usize>) -> Seq<Seq<char>> {
    Seq::new(order.len(), |k: int| chunk_name(order[k] as nat))
}

/// A listing has one order, and no other.
pub proof fn lemma_chunk_order_unique(names: Seq<Seq<char>>, order: Seq<usize>)
    requires
        is_chunk_order(names, order),
    ensures
        order == chunk_order(names),
{
    lemma_ascending_unique(order, chunk_order(names));
}

/// Every listing has its order.
pub proof fn lemma_chunk_order_exists(names: Seq<Seq<char>>)
    ensures
        is_chunk_order(names, chunk_order(names)),
{
    let order = lemma_some_chunk_order(names);
}

/// An order for a listing, built name by name.
proof fn lemma_some_chunk_order(names: Seq<Seq<char>>) -> (order: Seq<usize>)
    ensures
        is_chunk_order(names, order),
    decreases names.len(),
{
    if names.len() == 0 {
        let order = Seq::<usize>::empty();
        assert forall|i: usize| order.contains(i) <==> lists_chunk(names, i) by {}
        order
    } else {
        let shorter = names.drop_last();
        let before = lemma_some_chunk_order(shorter);
        let last = names.last();
        let named = exists|i: usize| #[trigger] chunk_name(i as nat) == last;
        let at = choose|i: usize| #[trigger] chunk_name(i as nat) == last;
        let order = if named {
            lemma_ascending_with(before, at)
        } else {
            before
        };
        assert forall|i: usize| order.contains(i) <==> lists_chunk(names, i) by {
            if lists_chunk(names, i) {
                let k = choose|k: int|
                    0 <= k < names.len() && #[trigger] names[k] == chunk_name(i as nat);
                if k < shorter.len() {
                    assert(shorter[k] == names[k]);
                    assert(lists_chunk(shorter, i));
                } else {
                    assert(chunk_name(i as nat) == last);
                    lemma_chunk_name_injective(i as nat, at as nat);
                }
            }
            if order.contains(i) {
                if before.contains(i) {
                    let k = choose|k: int|
                        0 <= k < shorter.len() && #[trigger] shorter[k] == chunk_name(i as nat);
                    assert(names[k] == shorter[k]);
                } else {
                    assert(names[names.len() - 1] == chunk_name(i as nat));
                }
            }
        }
        order
    }
}

/// A chunk name is `chunk_`, then digits, and all of it ASCII.
pub proof fn lemma_chunk_name_shape(index: nat)
    ensures
        chunk_name(index).len() > 6,
        chunk_name(index).take(6) == "chunk_"@,
        chunk_name(index).skip(6) == decimal(index),
        vstd::utf8::is_ascii_chars(chunk_name(index)),
{
    reveal_strlit("chunk_");
    lemma_decimal_digits(index);
    let name = chunk_name(index);
    assert(name.take(6) =~= "chunk_"@);
    assert(name.skip(6) =~= decimal(index));
    assert forall|i: int| 0 <= i < name.len() implies '\0' <= #[trigger] name[i] <= '\u{7f}' by {
        if i >= 6 {
            assert(name[i] == decimal(index)[i - 6]);
            assert(crate::decimal::is_digit(decimal(index)[i - 6]));
        }
    }
}

/// Chunks with different indices have different names.
pub proof fn lemma_chunk_name_injective(a: nat, b: nat)
    requires
        chunk_name(a) == chunk_name(b),
    ensures
        a == b,
{
    lemma_chunk_name_shape(a);
    lemma_chunk_name_shape(b);
    crate::decimal::lemma_decimal_injective(a, b);
}

/// The files of a session's storage: contents by name.
pub type Files = Map<Seq<char>, Seq<u8>>;

/// What reading the files `sources` one after the other gives: their contents,
/// joined in that order.
pub open spec fn read_in(files: Files, sources: Seq<Seq<char>>) -> Seq<u8>
    decreases sources.len(),
{
    if sources.len() == 0 {
        Seq::empty()
    } else {
        read_in(files, sources.drop_last()) + files[sources.last()]
    }
}

/// Whether storage holds the chunks `chunks`: the payload of each in the file
/// of the chunk's name.
pub open spec fn stores(files: Files, chunks: Chunks) -> bool {
    forall|i: usize| #[trigger]
        chunks.dom().contains(i) ==> files.dom().contains(chunk_name(i as nat)) && files[chunk_name(
            i as nat,
        )] == chunks[i]
}

/// Writing the file of a chunk stores that chunk and touches no other: where
/// storage holds the chunks, storage with the payload written under the name of
/// `index` holds the chunks with `index` set to that payload.
pub proof fn lemma_write_stores_chunk(files: Files, chunks: Chunks, index: usize, payload: Seq<u8>)
    requires
        stores(files, chunks),
    ensures
        stores(files.insert(chunk_name(index as nat), payload), chunks.insert(index, payload)),
{
    let after = chunks.insert(index, payload);
    assert forall|i: usize| #[trigger] after.dom().contains(i) implies files.insert(
        chunk_name(index as nat),
        payload,
    ).dom().contains(chunk_name(i as nat)) && files.insert(chunk_name(index as nat), payload)[chunk_name(
        i as nat,
    )] == after[i] by {
        if i != index {
            assert(chunks.dom().contains(i));
            if chunk_name(i as nat) == chunk_name(index as nat) {
                lemma_chunk_name_injective(i as nat, index as nat);
            }
        }
    }
}

/// Reading a session's files in the order of its listing assembles the
/// session: where storage holds the chunks and the listing names them, the
/// files of the listing's order, read one after the other, give the payloads by
/// ascending index. Other files in the listing change nothing.
pub proof fn lemma_listing_assembles(
    names: Seq<Seq<char>>,
    order: Seq<usize>,
    files: Files,
    chunks: Chunks,
)
    requires
        is_chunk_order(names, order),
        forall|i: usize| lists_chunk(names, i) <==> chunks.dom().contains(i),
        stores(files, chunks),
    ensures
        read_in(files, chunk_names(order)) == assembled(chunks),
{
    lemma_read_is_joined(order, order.len() as int, files, chunks);
    assert(order.take(order.len() as int) =~= order);
    lemma_assembled_in_ascending_order(chunks, order);
}

/// Reading the files of a run of chunks gives the payloads of the run.
proof fn lemma_read_is_joined(order: Seq<usize>, n: int, files: Files, chunks: Chunks)
    requires
        0 <= n <= order.len(),
        forall|i: usize| order.contains(i) ==> chunks.dom().contains(i),
        stores(files, chunks),
    ensures
        read_in(files, chunk_names(order.take(n))) == joined_in(chunks, order.take(n)),
    decreases n,
{
    if n > 0 {
        lemma_read_is_joined(order, n - 1, files, chunks);
        let run = order.take(n);
        assert(run.drop_last() =~= order.take(n - 1));
        assert(chunk_names(run).drop_last() =~= chunk_names(order.take(n - 1)));
        assert(chunk_names(run).last() == chunk_name(run.last() as nat));
        assert(order.contains(order[n - 1]));
        assert(chunks.dom().contains(run.last()));
    }
}

/// The name under which the chunk `index` is stored.
pub fn chunk_file_name(index: usize) -> (r: String)
    ensures
        r@ == chunk_name(index as nat),
{
    let digits = index_text(index);
    joined("chunk_", digits.as_str())
}

/// The index of the chunk that is stored under `name`, or `None` where `name`
/// is not the name of any chunk.
pub fn parse_chunk_name(name: &str) -> (r: Option<usize>)
    ensures
        match r {
            Some(i) => name@ == chunk_name(i as nat),
            None => forall|i: usize| name@ != #[trigger] chunk_name(i as nat),
        },
{
    let ghost s = name@;
    proof {
        assert forall|i: usize| s == #[trigger] chunk_name(i as nat) implies {
            &&& vstd::utf8::is_ascii_chars(s)
            &&& s.len() > 6
            &&& s.take(6) == "chunk_"@
            &&& parsed_index(s.skip(6)) == Some(i)
            &&& decimal(i as nat) == s.skip(6)
        } by {
            lemma_chunk_name_shape(i as nat);
            lemma_decimal_round_trip(i);
        }
    }
    if !name.is_ascii() {
        return None;
    }
    let n = name.as_bytes().len();
    proof {
        vstd::utf8::is_ascii_chars_encode_utf8(s);
    }
    if n <= 6 {
        return None;
    }
    let head = name.substring_ascii(0, 6);
    if !str_eq(head, "chunk_") {
        assert(head@ =~= s.take(6));
        return None;
    }
    let tail = name.substring_ascii(6, n);
    assert(head@ =~= s.take(6));
    assert(tail@ =~= s.skip(6));
    match parse_index(tail) {
        None => None,
        Some(i) => {
            let canonical = index_text(i);
            if str_eq(canonical.as_str(), tail) {
                assert(s =~= s.take(6) + s.skip(6));
                Some(i)
            } else {
                None
            }
        },
    }
}

/// The indices of the chunks that a listing of a session's storage names, in
/// ascending order. Names that are not chunk names are passed over, and a name
/// that the listing holds twice counts once.
pub fn list_chunks(names: &Vec<String>) -> (r: Vec<usize>)
    ensures
        is_chunk_order(texts(names@), r@),
        r@ == chunk_order(texts(names@)),
{
    let ghost listing = texts(names@);
    let mut out: Vec<usize> = Vec::new();
    let mut k: usize = 0;
    while k < names.len()
        invariant
            k <= names.len(),
            listing == texts(names@),
            ascending(out@),
            forall|i: usize|
                out@.contains(i) <==> exists|j: int|
                    0 <= j < k && #[trigger] listing[j] == chunk_name(i as nat),
        decreases names.len() - k,
    {
        let ghost before = out@;
        let found = parse_chunk_name(names[k].as_str());
        match found {
            Some(index) => {
                insert_ascending(&mut out, index);
            },
            None => {},
        }
        proof {
            assert(listing[k as int] == names@[k as int]@);
            assert forall|i: usize|
                out@.contains(i) <==> exists|j: int|
                    0 <= j < k + 1 && #[trigger] listing[j] == chunk_name(i as nat) by {
                let here = listing[k as int] == chunk_name(i as nat);
                if here && found is Some {
                    lemma_chunk_name_injective(i as nat, found->0 as nat);
                }
                if exists|j: int| 0 <= j < k + 1 && #[trigger] listing[j] == chunk_name(i as nat) {
                    let j = choose|j: int|
                        0 <= j < k + 1 && #[trigger] listing[j] == chunk_name(i as nat);
                    if j < k {
                        assert(before.contains(i));
                    }
                }
                if out@.contains(i) {
                    if before.contains(i) {
                        let j = choose|j: int|
                            0 <= j < k && #[trigger] listing[j] == chunk_name(i as nat);
                        assert(0 <= j < k + 1);
                    } else {
                        assert(listing[k as int] == chunk_name(i as nat));
                    }
                }
            }
        }
        k += 1;
    }
    proof {
        lemma_chunk_order_unique(listing, out@);
    }
    out
}

/// The names under which the chunks of `order` are stored, in that order.
pub fn chunk_file_names(order: &Vec<usize>) -> (r: Vec<String>)
    ensures
        texts(r@) == chunk_names(order@),
{
    let mut out: Vec<String> = Vec::new();
    let mut k: usize = 0;
    while k < order.len()
        invariant
            k <= order.len(),
            out@.len() == k,
            forall|j: int| 0 <= j < k ==> (#[trigger] out@[j])@ == chunk_name(order@[j] as nat),
        decreases order.len() - k,
    {
        out.push(chunk_file_name(order[k]));
        k += 1;
    }
    assert(texts(out@) =~= chunk_names(order@));
    out
}

/// A chunk in storage: its index, and the name under which it is found.
#[derive(Debug, PartialEq, Eq)]
pub struct ChunkRef {
    pub index: usize,
    pub locator: String,
}

/// The indices of a run of chunks.
pub open spec fn ref_indices(refs: Seq<ChunkRef>) -> Seq<usize> {
    Seq::new(refs.len(), |k: int| refs[k].index)
}

/// Whether each chunk of a run is found under the name of its index.
pub open spec fn well_located(refs: Seq<ChunkRef>) -> bool {
    forall|k: int|
        0 <= k < refs.len() ==> (#[trigger] refs[k]).locator@ == chunk_name(refs[k].index as nat)
}

/// The chunks of `order`, each with the name under which it is found.
pub fn locate(order: &Vec<usize>) -> (r: Vec<ChunkRef>)
    ensures
        ref_indices(r@) == order@,
        well_located(r@),
{
    let mut out: Vec<ChunkRef> = Vec::new();
    let mut k: usize = 0;
    while k < order.len()
        invariant
            k <= order.len(),
            out@.len() == k,
            forall|j: int| 0 <= j < k ==> (#[trigger] out@[j]).index == order@[j],
            well_located(out@),
        decreases order.len() - k,
    {
        out.push(ChunkRef { index: order[k], locator: chunk_file_name(order[k]) });
        k += 1;
    }
    assert(ref_indices(out@) =~= order@);
    out
}

} // verus!
