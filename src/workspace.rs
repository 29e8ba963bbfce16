//! Workspaces: two-level grids of values, their flat addressed form, and the
//! greedy paging of that form into size-bounded pages.

use vstd::prelude::*;
use vstd::pervasive::VecAdditionalExecFns;
use crate::copy::{copy_value, identical};
use crate::blob::{blob_of, kind_of};
use crate::number::{bytes_be, Nat};
use crate::size::{sat, value_size};
use crate::types::CandyError;
use crate::value::CandyShared;

verus! {

/// One value of a workspace.
pub type DataChunk = CandyShared;

/// An ordered sequence of chunks.
pub type DataZone = Vec<DataChunk>;

/// An ordered sequence of zones.
pub type Workspace = Vec<DataZone>;

/// A value with its zone index and its chunk index.
pub type AddressedChunk = (u128, u128, CandyShared);

/// A flat, explicitly addressed sequence of chunks.
pub type AddressedChunkArray = Vec<AddressedChunk>;

/// Whether a page is the last one of its workspace.
#[derive(PartialEq, Eq, Structural, Clone, Copy, Debug)]
pub enum ChunkingType {
    Eof,
    Chunk,
}

/// The zones of a workspace as sequences.
pub open spec fn zones_view(ws: Workspace) -> Seq<Seq<CandyShared>> {
    ws@.map_values(|z: DataZone| z@)
}

/// The chunks of zone `z`, each with its address.
pub open spec fn zone_entries(z: int, zone: Seq<CandyShared>) -> Seq<AddressedChunk> {
    Seq::new(zone.len(), |c: int| (z as u128, c as u128, zone[c]))
}

/// Every chunk with its address, zone by zone and chunk by chunk.
pub open spec fn addressed(w: Seq<Seq<CandyShared>>) -> Seq<AddressedChunk>
    decreases w.len(),
{
    if w.len() == 0 {
        Seq::empty()
    } else {
        addressed(w.drop_last()) + zone_entries(w.len() - 1, w.last())
    }
}

/// The number of chunks in all zones.
pub open spec fn chunk_count(w: Seq<Seq<CandyShared>>) -> nat
    decreases w.len(),
{
    if w.len() == 0 {
        0
    } else {
        chunk_count(w.drop_last()) + w.last().len()
    }
}

/// The values of addressed chunks.
pub open spec fn chunk_values(a: Seq<AddressedChunk>) -> Seq<CandyShared> {
    a.map_values(|e: AddressedChunk| e.2)
}

/// The state of the greedy paging after the values `s`: the current page,
/// the bytes it holds, and whether it holds any value. A value joins the
/// current page unless the page holds something and the value's size would
/// take it past `max`; then it opens the next page.
pub open spec fn paging(s: Seq<CandyShared>, max: nat) -> (nat, nat, bool)
    decreases s.len(),
{
    if s.len() == 0 {
        (0, 0, false)
    } else {
        let prev = paging(s.drop_last(), max);
        let size = sat(value_size(s.last()));
        if prev.2 && prev.1 + size > max {
            (prev.0 + 1, size, true)
        } else {
            (prev.0, prev.1 + size, true)
        }
    }
}

/// The number of pages the values `s` fill (one for no values).
pub open spec fn page_count(s: Seq<CandyShared>, max: nat) -> nat {
    paging(s, max).0 + 1
}

/// The addressed chunks that the greedy paging puts on page `id`, in order.
pub open spec fn page_items(a: Seq<AddressedChunk>, max: nat, id: nat) -> Seq<AddressedChunk>
    decreases a.len(),
{
    if a.len() == 0 {
        Seq::empty()
    } else {
        let prev = page_items(a.drop_last(), max, id);
        if paging(chunk_values(a), max).0 == id {
            prev.push(a.last())
        } else {
            prev
        }
    }
}

/// The value that fills positions no chunk was given for.
pub open spec fn empty_value() -> CandyShared {
    CandyShared::Option(None)
}

/// `w` with empty zones added until it has at least `n`.
pub open spec fn pad_zones(w: Seq<Seq<CandyShared>>, n: nat) -> Seq<Seq<CandyShared>> {
    if w.len() >= n {
        w
    } else {
        w + Seq::new((n - w.len()) as nat, |_i: int| Seq::<CandyShared>::empty())
    }
}

/// `z` with empty values added until it has at least `n`.
pub open spec fn pad_zone(z: Seq<CandyShared>, n: nat) -> Seq<CandyShared> {
    if z.len() >= n {
        z
    } else {
        z + Seq::new((n - z.len()) as nat, |_i: int| empty_value())
    }
}

/// `w` with `v` stored at zone `z`, chunk `c`, after padding so that the position exists.
pub open spec fn place(w: Seq<Seq<CandyShared>>, z: nat, c: nat, v: CandyShared) -> Seq<
    Seq<CandyShared>,
> {
    let w1 = pad_zones(w, z + 1);
    w1.update(z as int, pad_zone(w1[z as int], c + 1).update(c as int, v))
}

/// The zones rebuilt from addressed chunks, placed in order (a later chunk
/// at the same address replaces an earlier one).
pub open spec fn rebuild(a: Seq<AddressedChunk>) -> Seq<Seq<CandyShared>>
    decreases a.len(),
{
    if a.len() == 0 {
        Seq::empty()
    } else {
        let e = a.last();
        place(rebuild(a.drop_last()), e.0 as nat, e.1 as nat, e.2)
    }
}

/// Whether an address can be placed in memory.
pub open spec fn placeable(e: AddressedChunk) -> bool {
    e.0 < usize::MAX && e.1 < usize::MAX
}

/// The elements of `v` in reverse order.
pub(crate) fn reversed<T>(v: Vec<T>) -> (r: Vec<T>)
    ensures
        r@.len() == v@.len(),
        forall|i: int| 0 <= i < v@.len() ==> #[trigger] r@[i] == v@[v@.len() - 1 - i],
{
    let ghost v0 = v@;
    let mut v = v;
    let mut r: Vec<T> = Vec::new();
    while v.len() > 0
        invariant
            v@ == v0.subrange(0, v@.len() as int),
            r@.len() == v0.len() - v@.len(),
            forall|i: int| 0 <= i < r@.len() ==> #[trigger] r@[i] == v0[v0.len() - 1 - i],
        decreases v@.len(),
    {
        let x = v.pop().unwrap();
        r.push(x);
    }
    r
}

fn count_of(ws: &Workspace) -> (r: u128)
    ensures
        r == chunk_count(zones_view(*ws)),
{
    let ghost w = zones_view(*ws);
    let mut acc: u128 = 0;
    let mut i: usize = 0;
    while i < ws.len()
        invariant
            w == zones_view(*ws),
            0 <= i <= ws@.len(),
            acc == chunk_count(w.take(i as int)),
            acc <= i * 0x1_0000_0000_0000_0000,
        decreases ws@.len() - i,
    {
        proof {
            assert(w.take(i + 1).drop_last() =~= w.take(i as int));
        }
        let n = ws[i].len();
        assert(acc + n <= (i + 1) * 0x1_0000_0000_0000_0000) by (nonlinear_arith)
            requires
                acc <= i * 0x1_0000_0000_0000_0000,
                n < 0x1_0000_0000_0000_0000,
        ;
        assert((i + 1) * 0x1_0000_0000_0000_0000 <= 0x1_0000_0000_0000_0000 * 0x1_0000_0000_0000_0000) by (nonlinear_arith)
            requires
                i + 1 <= 0x1_0000_0000_0000_0000,
        ;
        acc = acc + n as u128;
        i = i + 1;
    }
    assert(w.take(i as int) =~= w);
    acc
}

fn to_array(ws: Workspace) -> (r: AddressedChunkArray)
    ensures
        r@ == addressed(zones_view(ws)),
{
    let ghost w = zones_view(ws);
    let n = ws.len();
    let mut zones = reversed(ws);
    let mut out: AddressedChunkArray = Vec::new();
    let mut z: usize = 0;
    while zones.len() > 0
        invariant
            n == w.len(),
            zones@.len() == n - z,
            forall|j: int| 0 <= j < zones@.len() ==> #[trigger] zones@[j]@ == w[n - 1 - j],
            out@ == addressed(w.take(z as int)),
        decreases zones@.len(),
    {
        let zone = zones.pop().unwrap();
        let ghost zs = w[z as int];
        let m = zone.len();
        let mut items = reversed(zone);
        let mut c: usize = 0;
        while items.len() > 0
            invariant
                m == zs.len(),
                items@.len() == m - c,
                forall|j: int| 0 <= j < items@.len() ==> #[trigger] items@[j] == zs[m - 1 - j],
                out@ == addressed(w.take(z as int)) + zone_entries(z as int, zs.take(c as int)),
            decreases items@.len(),
        {
            let v = items.pop().unwrap();
            proof {
                assert(zone_entries(z as int, zs.take(c + 1)) =~= zone_entries(
                    z as int,
                    zs.take(c as int),
                ).push((z as u128, c as u128, v)));
            }
            out.push((z as u128, c as u128, v));
            c = c + 1;
        }
        proof {
            assert(zs.take(c as int) =~= zs);
            assert(w.take(z + 1).drop_last() =~= w.take(z as int));
        }
        z = z + 1;
    }
    assert(w.take(z as int) =~= w);
    out
}


/// One step of the greedy paging, as in [`paging`].
fn page_step(page: u128, used: u128, open: bool, size: u128, max: u128) -> (r: (u128, u128, bool))
    requires
        !open ==> used == 0,
        page < u128::MAX,
    ensures
        r.0 as nat == (if open && used as nat + size as nat > max as nat {
            page as nat + 1
        } else {
            page as nat
        }),
        r.1 as nat == (if open && used as nat + size as nat > max as nat {
            size as nat
        } else {
            used as nat + size as nat
        }),
        r.2,
{
    if open && (used > max || size > max - used) {
        (page + 1, size, true)
    } else {
        (page, used + size, true)
    }
}

fn page_count_of(a: &AddressedChunkArray, max: u128) -> (r: u128)
    ensures
        r == page_count(chunk_values(a@), max as nat),
{
    let mut page: u128 = 0;
    let mut used: u128 = 0;
    let mut open = false;
    let mut i: usize = 0;
    while i < a.len()
        invariant
            0 <= i <= a@.len(),
            (page as nat, used as nat, open) == paging(chunk_values(a@.take(i as int)), max as nat),
            page <= i,
            !open ==> used == 0,
        decreases a@.len() - i,
    {
        proof {
            lemma_paging_page_bound(chunk_values(a@.take(i as int)), max as nat);
            assert(chunk_values(a@.take(i + 1)).drop_last() =~= chunk_values(a@.take(i as int)));
        }
        let size = a[i].2.get_value_size();
        let st = page_step(page, used, open, size, max);
        page = st.0;
        used = st.1;
        open = st.2;
        i = i + 1;
    }
    assert(a@.take(i as int) =~= a@);
    page + 1
}

proof fn lemma_paging_page_bound(s: Seq<CandyShared>, max: nat)
    ensures
        paging(s, max).0 <= s.len(),
        !paging(s, max).2 ==> paging(s, max).1 == 0,
    decreases s.len(),
{
    if s.len() > 0 {
        lemma_paging_page_bound(s.drop_last(), max);
    }
}

fn page_of_array(a: AddressedChunkArray, id: u128, max: u128) -> (r: (ChunkingType, AddressedChunkArray))
    ensures
        r.1@ == page_items(a@, max as nat, id as nat),
        r.0 == (if id + 1 < page_count(chunk_values(a@), max as nat) {
            ChunkingType::Chunk
        } else {
            ChunkingType::Eof
        }),
{
    let ghost a0 = a@;
    let n = a.len();
    let mut rest = reversed(a);
    let mut out: AddressedChunkArray = Vec::new();
    let mut page: u128 = 0;
    let mut used: u128 = 0;
    let mut open = false;
    let mut i: usize = 0;
    while rest.len() > 0
        invariant
            n == a0.len(),
            rest@.len() == n - i,
            forall|j: int| 0 <= j < rest@.len() ==> #[trigger] rest@[j] == a0[n - 1 - j],
            (page as nat, used as nat, open) == paging(chunk_values(a0.take(i as int)), max as nat),
            page <= i,
            !open ==> used == 0,
            out@ == page_items(a0.take(i as int), max as nat, id as nat),
        decreases rest@.len(),
    {
        let e = rest.pop().unwrap();
        proof {
            lemma_paging_page_bound(chunk_values(a0.take(i as int)), max as nat);
            let t = a0.take(i + 1);
            assert(t.drop_last() =~= a0.take(i as int));
            assert(chunk_values(t).drop_last() =~= chunk_values(a0.take(i as int)));
        }
        let size = e.2.get_value_size();
        let st = page_step(page, used, open, size, max);
        page = st.0;
        used = st.1;
        open = st.2;
        if page == id {
            out.push(e);
        }
        i = i + 1;
    }
    assert(a0.take(i as int) =~= a0);
    if id < page {
        (ChunkingType::Chunk, out)
    } else {
        (ChunkingType::Eof, out)
    }
}

/// The value of the first chunk with the given address, or the empty value.
fn find_chunk(a: &AddressedChunkArray, zone: u128, chunk: u128) -> (r: CandyShared)
    ensures
        (exists|i: int| 0 <= i < a@.len() && a@[i].0 == zone && a@[i].1 == chunk) ==> (exists|i: int|
            0 <= i < a@.len() && a@[i].0 == zone && a@[i].1 == chunk && (forall|j: int|
                0 <= j < i ==> !(#[trigger] a@[j].0 == zone && a@[j].1 == chunk)) && identical(
                a@[i].2,
                r,
            )),
        !(exists|i: int| 0 <= i < a@.len() && a@[i].0 == zone && a@[i].1 == chunk) ==> r
            == empty_value(),
{
    let mut i: usize = 0;
    while i < a.len()
        invariant
            0 <= i <= a@.len(),
            forall|j: int| 0 <= j < i ==> !(#[trigger] a@[j].0 == zone && a@[j].1 == chunk),
        decreases a@.len() - i,
    {
        if a[i].0 == zone && a[i].1 == chunk {
            return copy_value(&a[i].2);
        }
        i = i + 1;
    }
    CandyShared::Option(None)
}


fn all_placeable(a: &AddressedChunkArray) -> (r: bool)
    ensures
        r == (forall|i: int| 0 <= i < a@.len() ==> placeable(#[trigger] a@[i])),
{
    let mut i: usize = 0;
    while i < a.len()
        invariant
            0 <= i <= a@.len(),
            forall|j: int| 0 <= j < i ==> placeable(#[trigger] a@[j]),
        decreases a@.len() - i,
    {
        if a[i].0 >= usize::MAX as u128 || a[i].1 >= usize::MAX as u128 {
            assert(!placeable(a@[i as int]));
            return false;
        }
        i = i + 1;
    }
    true
}

/// Stores `v` at zone `z`, chunk `c`, padding zones and chunks as needed.
fn place_into(ws: &mut Workspace, z: usize, c: usize, v: CandyShared)
    requires
        z < usize::MAX,
        c < usize::MAX,
    ensures
        zones_view(*final(ws)) == place(zones_view(*old(ws)), z as nat, c as nat, v),
{
    let ghost w0 = zones_view(*ws);
    while ws.len() <= z
        invariant
            z < usize::MAX,
            w0.len() <= ws@.len(),
            ws@.len() > w0.len() ==> ws@.len() <= z + 1,
            zones_view(*ws) == pad_zones(w0, ws@.len() as nat),
        decreases z + 1 - ws@.len(),
    {
        let ghost before = zones_view(*ws);
        ws.push(Vec::new());
        proof {
            assert(zones_view(*ws) =~= before.push(Seq::<CandyShared>::empty()));
            assert(zones_view(*ws) =~= pad_zones(w0, ws@.len() as nat));
        }
    }
    let ghost w1 = zones_view(*ws);
    assert(w1 =~= pad_zones(w0, (z + 1) as nat));
    let mut zone: Vec<CandyShared> = Vec::new();
    ws.set_and_swap(z, &mut zone);
    let ghost zs = zone@;
    assert(zs == w1[z as int]);
    while zone.len() <= c
        invariant
            c < usize::MAX,
            zs.len() <= zone@.len(),
            zone@.len() > zs.len() ==> zone@.len() <= c + 1,
            zone@ == pad_zone(zs, zone@.len() as nat),
        decreases c + 1 - zone@.len(),
    {
        zone.push(CandyShared::Option(None));
        proof {
            assert(zone@ =~= pad_zone(zs, zone@.len() as nat));
        }
    }
    assert(zone@ =~= pad_zone(zs, (c + 1) as nat));
    zone.set(c, v);
    ws.set_and_swap(z, &mut zone);
    proof {
        assert(zones_view(*ws) =~= place(w0, z as nat, c as nat, v));
    }
}

fn from_array(chunks: AddressedChunkArray) -> (r: Result<Workspace, CandyError>)
    ensures
        (forall|i: int| 0 <= i < chunks@.len() ==> placeable(#[trigger] chunks@[i])) ==> (r matches Ok(
            ws,
        ) && zones_view(ws) == rebuild(chunks@)),
        !(forall|i: int| 0 <= i < chunks@.len() ==> placeable(#[trigger] chunks@[i])) ==> r == Err::<
            Workspace,
            CandyError,
        >(CandyError::MalformedAddress),
{
    if !all_placeable(&chunks) {
        return Err(CandyError::MalformedAddress);
    }
    let ghost a0 = chunks@;
    let n = chunks.len();
    let mut rest = reversed(chunks);
    let mut ws: Workspace = Vec::new();
    let mut i: usize = 0;
    proof {
        assert(zones_view(ws) =~= rebuild(a0.take(0)));
    }
    while rest.len() > 0
        invariant
            n == a0.len(),
            forall|j: int| 0 <= j < a0.len() ==> placeable(#[trigger] a0[j]),
            rest@.len() == n - i,
            forall|j: int| 0 <= j < rest@.len() ==> #[trigger] rest@[j] == a0[n - 1 - j],
            zones_view(ws) == rebuild(a0.take(i as int)),
        decreases rest@.len(),
    {
        let e = rest.pop().unwrap();
        proof {
            assert(placeable(a0[i as int]));
            assert(a0.take(i + 1).drop_last() =~= a0.take(i as int));
        }
        place_into(&mut ws, e.0 as usize, e.1 as usize, e.2);
        i = i + 1;
    }
    assert(a0.take(i as int) =~= a0);
    Ok(ws)
}


/// The concatenation, chunk by chunk, of the canonical bytes of the zone
/// index, the chunk index and the value; the first value that has no
/// canonical bytes makes it fail with `Unsupported` naming its variant.
pub open spec fn flattened(a: Seq<AddressedChunk>) -> Result<Seq<u8>, CandyError>
    decreases a.len(),
{
    if a.len() == 0 {
        Ok(Seq::empty())
    } else {
        match flattened(a.drop_last()) {
            Err(e) => Err(e),
            Ok(prev) => match blob_of(a.last().2) {
                Some(b) => Ok(prev + bytes_be(a.last().0 as nat) + bytes_be(a.last().1 as nat) + b),
                None => Err(CandyError::Unsupported(kind_of(a.last().2))),
            },
        }
    }
}

fn flatten_array(a: AddressedChunkArray) -> (r: Result<Vec<u8>, CandyError>)
    ensures
        match flattened(a@) {
            Ok(b) => r matches Ok(x) && x@ == b,
            Err(e) => r == Err::<Vec<u8>, CandyError>(e),
        },
{
    let ghost a0 = a@;
    let n = a.len();
    let mut rest = reversed(a);
    let mut out: Vec<u8> = Vec::new();
    let mut i: usize = 0;
    while rest.len() > 0
        invariant
            n == a0.len(),
            a0 == a@,
            rest@.len() == n - i,
            forall|j: int| 0 <= j < rest@.len() ==> #[trigger] rest@[j] == a0[n - 1 - j],
            flattened(a0.take(i as int)) == Ok::<Seq<u8>, CandyError>(out@),
        decreases rest@.len(),
    {
        let e = rest.pop().unwrap();
        proof {
            assert(a0.take(i + 1).drop_last() =~= a0.take(i as int));
            assert(e == a0[i as int]);
            assert(a0.take(i + 1).last() == a0[i as int]);
        }
        let mut zone = Nat::from_u128(e.0).to_bytes_be();
        let mut chunk = Nat::from_u128(e.1).to_bytes_be();
        match e.2.to_blob() {
            Ok(mut b) => {
                out.append(&mut zone);
                out.append(&mut chunk);
                out.append(&mut b);
            },
            Err(err) => {
                proof {
                    assert(blob_of(a0[i as int].2) is None);
                    assert(flattened(a0.take(i + 1)) == Err::<Seq<u8>, CandyError>(err));
                    lemma_flattened_err_stays(a0, i as int + 1);
                }
                return Err(err);
            },
        }
        i = i + 1;
    }
    assert(a0.take(i as int) =~= a0);
    Ok(out)
}

proof fn lemma_flattened_err_stays(a: Seq<AddressedChunk>, k: int)
    requires
        0 <= k <= a.len(),
        flattened(a.take(k)) is Err,
    ensures
        flattened(a) == flattened(a.take(k)),
    decreases a.len() - k,
{
    if k < a.len() {
        assert(a.take(k + 1).drop_last() =~= a.take(k));
        lemma_flattened_err_stays(a, k + 1);
    } else {
        assert(a.take(k) =~= a);
    }
}

/// Operations on a flat array of addressed chunks.
pub trait AddressedChunkArrayTrait: Sized {
    /// The value stored at the address, or the empty value when no chunk has it.
    fn get_data_chunk(&self, data_zone: u128, data_chunk: u128) -> CandyShared;

    /// The canonical bytes of every chunk's address and value, concatenated.
    fn flatten(self) -> Result<Vec<u8>, CandyError>;
}

impl AddressedChunkArrayTrait for AddressedChunkArray {
    fn get_data_chunk(&self, data_zone: u128, data_chunk: u128) -> (r: CandyShared)
        ensures
            (exists|i: int|
                0 <= i < self@.len() && self@[i].0 == data_zone && self@[i].1 == data_chunk) ==> (
            exists|i: int|
                0 <= i < self@.len() && self@[i].0 == data_zone && self@[i].1 == data_chunk && (
                forall|j: int|
                    0 <= j < i ==> !(#[trigger] self@[j].0 == data_zone && self@[j].1
                        == data_chunk)) && identical(self@[i].2, r)),
            !(exists|i: int|
                0 <= i < self@.len() && self@[i].0 == data_zone && self@[i].1 == data_chunk) ==> r
                == empty_value(),
    {
        find_chunk(self, data_zone, data_chunk)
    }

    fn flatten(self) -> (r: Result<Vec<u8>, CandyError>)
        ensures
            match flattened(self@) {
                Ok(b) => r matches Ok(x) && x@ == b,
                Err(e) => r == Err::<Vec<u8>, CandyError>(e),
            },
    {
        flatten_array(self)
    }
}

/// Whether every value of the zone has canonical bytes.
pub open spec fn all_blobs(z: Seq<CandyShared>) -> bool {
    forall|i: int| 0 <= i < z.len() ==> #[trigger] blob_of(z[i]) is Some
}

fn zone_blobs(zone: DataZone) -> (r: Result<Vec<Vec<u8>>, CandyError>)
        ensures
            all_blobs(zone@) ==> (r matches Ok(
                bs,
            ) && bs@.len() == zone@.len() && forall|i: int|
                0 <= i < zone@.len() ==> Some(#[trigger] bs@[i]@) == blob_of(zone@[i])),
            !all_blobs(zone@) ==> (exists|
                i: int,
            |
                0 <= i < zone@.len() && blob_of(zone@[i]) is None && (forall|j: int|
                    0 <= j < i ==> #[trigger] blob_of(zone@[j]) is Some) && r == Err::<
                    Vec<Vec<u8>>,
                    CandyError,
                >(CandyError::Unsupported(kind_of(zone@[i])))),
{
    let ghost z0 = zone@;
    let n = zone.len();
    let mut rest = reversed(zone);
    let mut out: Vec<Vec<u8>> = Vec::new();
    let mut i: usize = 0;
    while rest.len() > 0
        invariant
            n == z0.len(),
            z0 == zone@,
            rest@.len() == n - i,
            forall|j: int| 0 <= j < rest@.len() ==> #[trigger] rest@[j] == z0[n - 1 - j],
            out@.len() == i,
            forall|j: int| 0 <= j < i ==> Some(#[trigger] out@[j]@) == blob_of(z0[j]),
            forall|j: int| 0 <= j < i ==> #[trigger] blob_of(z0[j]) is Some,
        decreases rest@.len(),
    {
        let v = rest.pop().unwrap();
        assert(v == z0[i as int]);
        let ghost k = kind_of(v);
        match v.to_blob() {
            Ok(b) => out.push(b),
            Err(e) => {
                let r = Err(e);
                proof {
                    assert(blob_of(z0[i as int]) is None);
                    assert(e == CandyError::Unsupported(kind_of(z0[i as int])));
                    assert(!all_blobs(z0));
                    let k = i as int;
                    assert(0 <= k < z0.len() && blob_of(z0[k]) is None && (forall|j: int|
                        0 <= j < k ==> #[trigger] blob_of(z0[j]) is Some) && r == Err::<
                        Vec<Vec<u8>>,
                        CandyError,
                    >(CandyError::Unsupported(kind_of(z0[k]))));
                }
                return r;
            },
        }
        i = i + 1;
    }
    Ok(out)
}

/// Operations on one zone.
pub trait DataZoneTrait: Sized {
    /// The canonical bytes of each chunk.
    fn to_bytes_buffer(self) -> Result<Vec<Vec<u8>>, CandyError>;

    /// A zone of `Bytes` values, one per buffer.
    fn from_buffer(bytes_buffer: Vec<Vec<u8>>) -> Self;
}

impl DataZoneTrait for DataZone {
    fn to_bytes_buffer(self) -> (r: Result<Vec<Vec<u8>>, CandyError>)
        ensures
            (forall|i: int| 0 <= i < self@.len() ==> #[trigger] blob_of(self@[i]) is Some) ==> (r matches Ok(
                bs,
            ) && bs@.len() == self@.len() && forall|i: int|
                0 <= i < self@.len() ==> Some(#[trigger] bs@[i]@) == blob_of(self@[i])),
            !(forall|i: int| 0 <= i < self@.len() ==> #[trigger] blob_of(self@[i]) is Some) ==> (exists|
                i: int,
            |
                0 <= i < self@.len() && blob_of(self@[i]) is None && (forall|j: int|
                    0 <= j < i ==> #[trigger] blob_of(self@[j]) is Some) && r == Err::<
                    Vec<Vec<u8>>,
                    CandyError,
                >(CandyError::Unsupported(kind_of(self@[i])))),
    {
        zone_blobs(self)
    }

    fn from_buffer(bytes_buffer: Vec<Vec<u8>>) -> (r: DataZone)
        ensures
            r@.len() == bytes_buffer@.len(),
            forall|i: int|
                0 <= i < r@.len() ==> #[trigger] r@[i] == CandyShared::Bytes(bytes_buffer@[i]),
    {
        let ghost b0 = bytes_buffer@;
        let n = bytes_buffer.len();
        let mut rest = reversed(bytes_buffer);
        let mut out: DataZone = Vec::new();
        let mut i: usize = 0;
        while rest.len() > 0
            invariant
                n == b0.len(),
                rest@.len() == n - i,
                forall|j: int| 0 <= j < rest@.len() ==> #[trigger] rest@[j] == b0[n - 1 - j],
                out@.len() == i,
                forall|j: int| 0 <= j < i ==> #[trigger] out@[j] == CandyShared::Bytes(b0[j]),
            decreases rest@.len(),
        {
            let b = rest.pop().unwrap();
            out.push(CandyShared::Bytes(b));
            i = i + 1;
        }
        out
    }
}

/// Operations on a whole workspace.
pub trait WorkspaceTrait: Sized {
    /// The number of chunks over all zones.
    fn count_addressed_chunks(&self) -> u128;

    /// Every chunk with its address, zone by zone and chunk by chunk.
    fn to_addressed_chunk_array(self) -> AddressedChunkArray;

    /// The workspace that the addressed chunks describe.
    fn from_addressed_chunks(chunks: AddressedChunkArray) -> Result<Self, CandyError>;

    /// The number of pages of at most `max_chunk_size` estimated bytes.
    fn get_workspace_chunk_size(self, max_chunk_size: u128) -> u128;

    /// The chunks on page `chunk_id`, and whether more pages follow.
    fn get_workspace_chunk(self, chunk_id: u128, max_chunk_size: u128) -> (
        ChunkingType,
        AddressedChunkArray,
    );
}

impl WorkspaceTrait for Workspace {
    fn count_addressed_chunks(&self) -> (r: u128)
        ensures
            r == chunk_count(zones_view(*self)),
    {
        count_of(self)
    }

    fn to_addressed_chunk_array(self) -> (r: AddressedChunkArray)
        ensures
            r@ == addressed(zones_view(self)),
    {
        to_array(self)
    }

    /// Fails with `MalformedAddress` when an index does not fit in memory.
    fn from_addressed_chunks(chunks: AddressedChunkArray) -> (r: Result<Workspace, CandyError>)
        ensures
            (forall|i: int| 0 <= i < chunks@.len() ==> placeable(#[trigger] chunks@[i])) ==> (r matches Ok(
                ws,
            ) && zones_view(ws) == rebuild(chunks@)),
            !(forall|i: int| 0 <= i < chunks@.len() ==> placeable(#[trigger] chunks@[i])) ==> r
                == Err::<Workspace, CandyError>(CandyError::MalformedAddress),
    {
        from_array(chunks)
    }

    fn get_workspace_chunk_size(self, max_chunk_size: u128) -> (r: u128)
        ensures
            r == page_count(chunk_values(addressed(zones_view(self))), max_chunk_size as nat),
    {
        let a = to_array(self);
        page_count_of(&a, max_chunk_size)
    }

    fn get_workspace_chunk(self, chunk_id: u128, max_chunk_size: u128) -> (r: (
        ChunkingType,
        AddressedChunkArray,
    ))
        ensures
            r.1@ == page_items(addressed(zones_view(self)), max_chunk_size as nat, chunk_id as nat),
            r.0 == (if chunk_id + 1 < page_count(
                chunk_values(addressed(zones_view(self))),
                max_chunk_size as nat,
            ) {
                ChunkingType::Chunk
            } else {
                ChunkingType::Eof
            }),
    {
        let a = to_array(self);
        page_of_array(a, chunk_id, max_chunk_size)
    }
}


/// Placing the chunks `a`, in order, onto the zones `w`.
pub open spec fn place_all(w: Seq<Seq<CandyShared>>, a: Seq<AddressedChunk>) -> Seq<
    Seq<CandyShared>,
>
    decreases a.len(),
{
    if a.len() == 0 {
        w
    } else {
        let e = a.last();
        place(place_all(w, a.drop_last()), e.0 as nat, e.1 as nat, e.2)
    }
}

/// `w` without its trailing empty zones.
pub open spec fn trim(w: Seq<Seq<CandyShared>>) -> Seq<Seq<CandyShared>>
    decreases w.len(),
{
    if w.len() == 0 {
        w
    } else if w.last().len() == 0 {
        trim(w.drop_last())
    } else {
        w
    }
}

proof fn lemma_rebuild_is_place_all(a: Seq<AddressedChunk>)
    ensures
        rebuild(a) == place_all(Seq::empty(), a),
    decreases a.len(),
{
    if a.len() > 0 {
        lemma_rebuild_is_place_all(a.drop_last());
    }
}

proof fn lemma_place_all_append(w: Seq<Seq<CandyShared>>, a: Seq<AddressedChunk>, b: Seq<AddressedChunk>)
    ensures
        place_all(w, a + b) == place_all(place_all(w, a), b),
    decreases b.len(),
{
    if b.len() == 0 {
        assert(a + b =~= a);
    } else {
        assert((a + b).drop_last() =~= a + b.drop_last());
        assert((a + b).last() == b.last());
        lemma_place_all_append(w, a, b.drop_last());
    }
}

proof fn lemma_trim_pad(w: Seq<Seq<CandyShared>>)
    ensures
        trim(w).len() <= w.len(),
        pad_zones(trim(w), w.len()) == w,
    decreases w.len(),
{
    if w.len() == 0 {
        assert(pad_zones(w, 0) =~= w);
    } else if w.last().len() == 0 {
        let w1 = w.drop_last();
        lemma_trim_pad(w1);
        let t = trim(w1);
        assert(trim(w) == t);
        assert forall|i: int| 0 <= i < w.len() implies #[trigger] pad_zones(t, w.len())[i] == w[i] by {
            if i < w1.len() {
                assert(pad_zones(t, w1.len())[i] == w1[i]);
            } else {
                assert(w[i] =~= Seq::<CandyShared>::empty());
            }
        }
        assert(pad_zones(t, w.len()) =~= w);
    } else {
        assert(pad_zones(w, w.len()) =~= w);
    }
}

proof fn lemma_zone_fill(t: Seq<Seq<CandyShared>>, w: Seq<Seq<CandyShared>>, zone: Seq<CandyShared>, k: nat)
    requires
        t.len() <= w.len(),
        pad_zones(t, w.len()) == w,
        w.len() <= u128::MAX,
        zone.len() <= u128::MAX,
        1 <= k <= zone.len(),
    ensures
        place_all(t, zone_entries(w.len() as int, zone).take(k as int)) == w.push(zone.take(k as int)),
    decreases k,
{
    let z = w.len() as int;
    let es = zone_entries(z, zone);
    assert(es.take(k as int).last() == (z as u128, (k - 1) as u128, zone[k - 1]));
    assert((z as u128) as nat == z);
    if k == 1 {
        assert(es.take(1).drop_last() =~= Seq::<AddressedChunk>::empty());
        assert(place_all(t, es.take(1).drop_last()) == t);
        let p = pad_zones(t, (z + 1) as nat);
        assert forall|i: int| 0 <= i < z + 1 implies #[trigger] p[i] == w.push(Seq::empty())[i] by {
            if i < z {
                assert(pad_zones(t, w.len())[i] == w[i]);
            }
        }
        assert(p =~= w.push(Seq::empty()));
        assert(pad_zone(Seq::empty(), 1).update(0, zone[0]) =~= zone.take(1));
        assert(place(t, z as nat, 0, zone[0]) =~= w.push(zone.take(1)));
    } else {
        lemma_zone_fill(t, w, zone, (k - 1) as nat);
        assert(es.take(k as int).drop_last() =~= es.take(k - 1));
        let prev = w.push(zone.take(k - 1));
        assert(pad_zones(prev, (z + 1) as nat) == prev);
        assert(pad_zone(zone.take(k - 1), k).update(k - 1, zone[k - 1]) =~= zone.take(k as int));
        assert(place(prev, z as nat, (k - 1) as nat, zone[k - 1]) =~= w.push(zone.take(k as int)));
    }
}

/// Rebuilding a workspace from its addressed chunks gives it back, except for
/// trailing empty zones, which have no chunk to recreate them.
pub proof fn lemma_rebuild_addressed(ws: Workspace)
    ensures
        rebuild(addressed(zones_view(ws))) == trim(zones_view(ws)),
{
    lemma_zones_bounded(ws);
    lemma_rebuild_addressed_seq(zones_view(ws));
}

proof fn lemma_rebuild_addressed_seq(w: Seq<Seq<CandyShared>>)
    requires
        w.len() <= u128::MAX,
        forall|i: int| 0 <= i < w.len() ==> #[trigger] w[i].len() <= u128::MAX,
    ensures
        rebuild(addressed(w)) == trim(w),
    decreases w.len(),
{
    if w.len() > 0 {
        let w1 = w.drop_last();
        let zone = w.last();
        let z = w1.len() as int;
        assert(forall|i: int| 0 <= i < w1.len() ==> #[trigger] w1[i] == w[i]);
        lemma_rebuild_addressed_seq(w1);
        let es = zone_entries(z, zone);
        if zone.len() == 0 {
            assert(addressed(w1) + es =~= addressed(w1));
        } else {
            lemma_rebuild_is_place_all(addressed(w));
            lemma_rebuild_is_place_all(addressed(w1));
            lemma_place_all_append(Seq::empty(), addressed(w1), es);
            lemma_trim_pad(w1);
            lemma_zone_fill(trim(w1), w1, zone, zone.len());
            assert(es.take(zone.len() as int) =~= es);
            assert(zone.take(zone.len() as int) =~= zone);
            assert(w1.push(zone) =~= w);
        }
    }
}

/// The workspace round trip: turning a workspace into addressed chunks and
/// back gives the same zones, each with the same values, whenever its last
/// zone holds a value (or it has no zones).
pub proof fn lemma_workspace_round_trip(ws: Workspace)
    requires
        ws@.len() == 0 || ws@.last()@.len() > 0,
    ensures
        forall|i: int|
            0 <= i < addressed(zones_view(ws)).len() ==> placeable(
                #[trigger] addressed(zones_view(ws))[i],
            ),
        rebuild(addressed(zones_view(ws))) == zones_view(ws),
{
    let w = zones_view(ws);
    lemma_rebuild_addressed(ws);
    lemma_zones_bounded(ws);
    if w.len() > 0 {
        assert(w.last() == ws@.last()@);
    }
    lemma_addressed_in_range(w);
}

proof fn lemma_zones_bounded(ws: Workspace)
    ensures
        zones_view(ws).len() <= usize::MAX,
        forall|i: int| 0 <= i < zones_view(ws).len() ==> #[trigger] zones_view(ws)[i].len() <= usize::MAX,
{
    assert(ws@.len() == ws.len());
    assert forall|i: int| 0 <= i < zones_view(ws).len() implies #[trigger] zones_view(ws)[i].len() <= usize::MAX by {
        assert(zones_view(ws)[i].len() == ws@[i].len());
    }
}

proof fn lemma_addressed_in_range(w: Seq<Seq<CandyShared>>)
    requires
        w.len() <= usize::MAX,
        forall|i: int| 0 <= i < w.len() ==> #[trigger] w[i].len() <= usize::MAX,
    ensures
        forall|i: int| 0 <= i < addressed(w).len() ==> #[trigger] addressed(w)[i].0 < w.len() && addressed(w)[i].1 < usize::MAX,
    decreases w.len(),
{
    if w.len() > 0 {
        let w1 = w.drop_last();
        assert(forall|i: int| 0 <= i < w1.len() ==> #[trigger] w1[i] == w[i]);
        lemma_addressed_in_range(w1);
        let a = addressed(w);
        let a1 = addressed(w1);
        let es = zone_entries(w.len() - 1, w.last());
        assert forall|i: int| 0 <= i < a.len() implies #[trigger] a[i].0 < w.len() && a[i].1 < usize::MAX by {
            if i < a1.len() {
                assert(a[i] == a1[i]);
            } else {
                assert(a[i] == es[i - a1.len()]);
            }
        }
    }
}

/// The number of chunks equals the length of the addressed array.
pub proof fn lemma_count_is_array_length(ws: Workspace)
    ensures
        chunk_count(zones_view(ws)) == addressed(zones_view(ws)).len(),
{
    lemma_count_seq(zones_view(ws));
}

proof fn lemma_count_seq(w: Seq<Seq<CandyShared>>)
    ensures
        chunk_count(w) == addressed(w).len(),
    decreases w.len(),
{
    if w.len() > 0 {
        lemma_count_seq(w.drop_last());
    }
}


/// The items of pages `0..n`, page after page.
pub open spec fn pages_concat(a: Seq<AddressedChunk>, max: nat, n: nat) -> Seq<AddressedChunk>
    decreases n,
{
    if n == 0 {
        Seq::empty()
    } else {
        pages_concat(a, max, (n - 1) as nat) + page_items(a, max, (n - 1) as nat)
    }
}

proof fn lemma_paging_step(a: Seq<AddressedChunk>, max: nat)
    requires
        a.len() > 0,
    ensures
        chunk_values(a).drop_last() == chunk_values(a.drop_last()),
        paging(chunk_values(a), max).0 == paging(chunk_values(a.drop_last()), max).0
            || paging(chunk_values(a), max).0 == paging(chunk_values(a.drop_last()), max).0 + 1,
{
    assert(chunk_values(a).drop_last() =~= chunk_values(a.drop_last()));
}

proof fn lemma_pages_past_end(a: Seq<AddressedChunk>, max: nat, id: nat)
    requires
        id > paging(chunk_values(a), max).0,
    ensures
        page_items(a, max, id) == Seq::<AddressedChunk>::empty(),
    decreases a.len(),
{
    if a.len() > 0 {
        lemma_paging_step(a, max);
        lemma_pages_past_end(a.drop_last(), max, id);
    }
}

proof fn lemma_concat_unchanged(a: Seq<AddressedChunk>, max: nat, m: nat)
    requires
        a.len() > 0,
        m <= paging(chunk_values(a), max).0,
    ensures
        pages_concat(a, max, m) == pages_concat(a.drop_last(), max, m),
    decreases m,
{
    if m > 0 {
        lemma_concat_unchanged(a, max, (m - 1) as nat);
    }
}

/// Paging is complete: the pages `0..page_count`, taken in order, hold every
/// addressed chunk exactly once and in the original order.
pub proof fn lemma_pages_cover(a: Seq<AddressedChunk>, max: nat)
    ensures
        pages_concat(a, max, page_count(chunk_values(a), max)) == a,
    decreases a.len(),
{
    if a.len() == 0 {
        assert(chunk_values(a).len() == 0);
        assert(page_count(chunk_values(a), max) == 1);
        assert(pages_concat(a, max, 0) == Seq::<AddressedChunk>::empty());
        assert(page_items(a, max, 0) == Seq::<AddressedChunk>::empty());
        assert(pages_concat(a, max, 1) =~= a);
    } else {
        let a1 = a.drop_last();
        let x = a.last();
        lemma_pages_cover(a1, max);
        lemma_paging_step(a, max);
        let p1 = paging(chunk_values(a1), max).0;
        let q = paging(chunk_values(a), max).0;
        lemma_concat_unchanged(a, max, q);
        assert(page_items(a, max, q) == page_items(a1, max, q).push(x));
        if q == p1 {
            assert(pages_concat(a, max, q + 1) =~= pages_concat(a1, max, q + 1).push(x));
        } else {
            lemma_pages_past_end(a1, max, q);
            assert(pages_concat(a, max, q + 1) =~= pages_concat(a1, max, p1 + 1).push(x));
        }
        assert(a1.push(x) =~= a);
    }
}

/// Paging a workspace is complete: its pages, taken in order, hold the
/// workspace's addressed chunks exactly once each and in order.
pub proof fn lemma_workspace_pages_cover(ws: Workspace, max_chunk_size: u128)
    ensures
        pages_concat(
            addressed(zones_view(ws)),
            max_chunk_size as nat,
            page_count(chunk_values(addressed(zones_view(ws))), max_chunk_size as nat),
        ) == addressed(zones_view(ws)),
{
    lemma_pages_cover(addressed(zones_view(ws)), max_chunk_size as nat);
}

} // verus!
