//! Still images of transients, cut into chunks for the control channel and
//! put together again.

use crate::b64::{base64_data, base64_text, decode, encode};
use crate::bytes::{copy_range, extend};
use crate::protocol::{HostMessage, WindowId};
use std::collections::HashMap;
use vstd::prelude::*;

verus! {

broadcast use vstd::std_specs::hash::group_hash_axioms;

pub const BLIT_CHUNK_BYTES: usize = 16384;

/// How many chunks an image takes; an empty one takes one.
pub open spec fn chunk_total(len: nat) -> nat {
    if len == 0 {
        1
    } else {
        (len + BLIT_CHUNK_BYTES - 1) as nat / BLIT_CHUNK_BYTES as nat
    }
}

pub open spec fn at_most(a: int, b: int) -> int {
    if a < b {
        a
    } else {
        b
    }
}

/// The `i`-th chunk of an image.
pub open spec fn chunk_of(png: Seq<u8>, i: int) -> Seq<u8> {
    png.subrange(
        at_most(i * BLIT_CHUNK_BYTES, png.len() as int),
        at_most((i + 1) * BLIT_CHUNK_BYTES, png.len() as int),
    )
}

/// `msg` carries the `i`-th chunk of an image. The counters are 16 bits wide
/// and wrap.
pub open spec fn is_chunk(msg: HostMessage, window_id: WindowId, seq: u32, png: Seq<u8>, i: int) -> bool {
    &&& msg is TransientBlit
    &&& msg->TransientBlit_window_id == window_id
    &&& msg->seq == seq
    &&& msg->chunk_index == (i % 65536) as u16
    &&& msg->chunk_count == (chunk_total(png.len()) % 65536) as u16
    &&& msg->data_b64@ == base64_text(chunk_of(png, i))
    &&& base64_data(msg->data_b64@) == Some(chunk_of(png, i))
}

/// The messages that carry an image.
pub open spec fn are_chunks(
    msgs: Seq<HostMessage>,
    window_id: WindowId,
    seq: u32,
    png: Seq<u8>,
) -> bool {
    &&& msgs.len() == chunk_total(png.len())
    &&& forall|i: int|
        0 <= i < msgs.len() ==> is_chunk(#[trigger] msgs[i], window_id, seq, png, i)
}

/// Cuts an image into messages.
pub fn chunk_blit(window_id: WindowId, seq: u32, png: &[u8]) -> (msgs: Vec<HostMessage>)
    ensures
        are_chunks(msgs@, window_id, seq, png@),
        // A chunk fits a control message.
        forall|i: int| 0 <= i < msgs@.len() ==> (#[trigger] msgs@[i])->data_b64@.len() <= 21848,
{
    let len: usize = png.len();
    let total: usize = if len == 0 {
        1
    } else {
        (len - 1) / BLIT_CHUNK_BYTES + 1
    };
    assert(total == chunk_total(png@.len())) by {
        if len > 0 {
            assert((len - 1) / 16384 + 1 == (len + 16384 - 1) / 16384);
        }
    }
    let count: u16 = (total % 65536) as u16;
    let mut msgs: Vec<HostMessage> = Vec::new();
    let mut i: usize = 0;
    while i < total
        invariant
            len == png@.len(),
            total == chunk_total(png@.len()),
            i <= total,
            total <= len / 16384 + 1,
            count == (chunk_total(png@.len()) % 65536) as u16,
            msgs@.len() == i,
            forall|j: int|
                0 <= j < i ==> is_chunk(#[trigger] msgs@[j], window_id, seq, png@, j),
            forall|j: int| 0 <= j < i ==> (#[trigger] msgs@[j])->data_b64@.len() <= 21848,
        decreases total - i,
    {
        assert(i * 16384 <= len) by {
            if len > 0 {
                assert((total - 1) * 16384 <= len - 1);
            }
        }
        let from: usize = i * BLIT_CHUNK_BYTES;
        let to: usize = if len - from < BLIT_CHUNK_BYTES {
            len
        } else {
            from + BLIT_CHUNK_BYTES
        };
        assert(from == at_most(i * BLIT_CHUNK_BYTES, len as int));
        assert(to == at_most((i + 1) * BLIT_CHUNK_BYTES, len as int));
        let chunk: Vec<u8> = copy_range(png, from, to);
        let data_b64: String = encode(chunk.as_slice());
        let chunk_index: u16 = (i % 65536) as u16;
        msgs.push(
            HostMessage::TransientBlit {
                window_id,
                seq,
                chunk_index,
                chunk_count: count,
                data_b64,
            },
        );
        i += 1;
    }
    msgs
}

/// An image of which some chunks have come.
struct Partial {
    seq: u32,
    chunk_count: u16,
    received: HashMap<u16, Vec<u8>>,
}

/// What of an image has come.
pub ghost struct PartialView {
    pub seq: u32,
    pub chunk_count: u16,
    pub received: Map<u16, Seq<u8>>,
}

impl View for Partial {
    type V = PartialView;

    closed spec fn view(&self) -> PartialView {
        PartialView {
            seq: self.seq,
            chunk_count: self.chunk_count,
            received: self.received@.map_values(|d: Vec<u8>| d@),
        }
    }
}

/// Puts images together again, one per window at a time.
pub struct BlitAssembler {
    partials: HashMap<WindowId, Partial>,
    last_completed_seq: HashMap<WindowId, u32>,
}

/// What a [`BlitAssembler`] has.
pub ghost struct AssemblerView {
    pub partials: Map<WindowId, PartialView>,
    pub completed: Map<WindowId, u32>,
}

spec fn partial_views(partials: Map<WindowId, Partial>) -> Map<WindowId, PartialView> {
    partials.map_values(|p: Partial| p@)
}

impl View for BlitAssembler {
    type V = AssemblerView;

    closed spec fn view(&self) -> AssemblerView {
        AssemblerView {
            partials: partial_views(self.partials@),
            completed: self.last_completed_seq@,
        }
    }
}

/// The first `n` chunks in their order.
pub open spec fn joined(received: Map<u16, Seq<u8>>, n: nat) -> Seq<u8>
    decreases n,
{
    if n == 0 {
        Seq::empty()
    } else {
        joined(received, (n - 1) as nat) + received[(n - 1) as u16]
    }
}

impl AssemblerView {
    /// A window's image of that number, or a newer one, was already completed.
    pub open spec fn is_stale(self, window_id: WindowId, seq: u32) -> bool {
        self.completed.contains_key(window_id) && seq <= self.completed[window_id]
    }

    /// The image that a chunk numbered `seq` belongs to; a newer image
    /// supersedes the one under way.
    pub open spec fn image(self, window_id: WindowId, seq: u32, chunk_count: u16) -> PartialView {
        if self.partials.contains_key(window_id) && seq <= self.partials[window_id].seq {
            self.partials[window_id]
        } else {
            PartialView { seq, chunk_count, received: Map::empty() }
        }
    }

    /// A chunk counts: its image is neither completed nor superseded.
    pub open spec fn counts(self, window_id: WindowId, seq: u32, chunk_count: u16) -> bool {
        !self.is_stale(window_id, seq) && seq >= self.image(window_id, seq, chunk_count).seq
    }

    /// A counting chunk is, by number, the last one of its image.
    pub open spec fn completes(
        self,
        window_id: WindowId,
        seq: u32,
        index: u16,
        chunk_count: u16,
        data: Seq<u8>,
    ) -> bool {
        let image = self.image(window_id, seq, chunk_count);
        image.received.insert(index, data).len() % 65536 == image.chunk_count
    }

    /// As many chunks as were announced have come, but not each of them: the
    /// image cannot be put together.
    pub open spec fn has_gap(
        self,
        window_id: WindowId,
        seq: u32,
        index: u16,
        chunk_count: u16,
        data: Option<Seq<u8>>,
    ) -> bool {
        let image = self.image(window_id, seq, chunk_count);
        &&& data is Some
        &&& self.counts(window_id, seq, chunk_count)
        &&& self.completes(window_id, seq, index, chunk_count, data->0)
        &&& exists|i: u16|
            i < image.chunk_count && !(#[trigger] image.received.insert(index, data->0).contains_key(
                i,
            ))
    }

    /// The state after a chunk, decoded if it could be.
    pub open spec fn accepted(
        self,
        window_id: WindowId,
        seq: u32,
        index: u16,
        chunk_count: u16,
        data: Option<Seq<u8>>,
    ) -> AssemblerView {
        if data is None || !self.counts(window_id, seq, chunk_count) {
            self
        } else if self.completes(window_id, seq, index, chunk_count, data->0) {
            AssemblerView {
                partials: self.partials.remove(window_id),
                completed: self.completed.insert(window_id, seq),
            }
        } else {
            let image = self.image(window_id, seq, chunk_count);
            AssemblerView {
                partials: self.partials.insert(
                    window_id,
                    (PartialView { received: image.received.insert(index, data->0), ..image }),
                ),
                ..self
            }
        }
    }

    /// The image that a chunk completes, if it does.
    pub open spec fn image_done(
        self,
        window_id: WindowId,
        seq: u32,
        index: u16,
        chunk_count: u16,
        data: Option<Seq<u8>>,
    ) -> Option<Seq<u8>> {
        if data is None || !self.counts(window_id, seq, chunk_count) || !self.completes(
            window_id,
            seq,
            index,
            chunk_count,
            data->0,
        ) {
            None
        } else {
            let image = self.image(window_id, seq, chunk_count);
            Some(joined(image.received.insert(index, data->0), image.chunk_count as nat))
        }
    }

    /// The state without a window.
    pub open spec fn forgotten(self, window_id: WindowId) -> AssemblerView {
        AssemblerView {
            partials: self.partials.remove(window_id),
            completed: self.completed.remove(window_id),
        }
    }
}

/// The state after a message.
pub open spec fn pushed(a: AssemblerView, msg: HostMessage) -> AssemblerView {
    match msg {
        HostMessage::TransientBlit { window_id, seq, chunk_index, chunk_count, data_b64 } => a.accepted(
            window_id,
            seq,
            chunk_index,
            chunk_count,
            base64_data(data_b64@),
        ),
        _ => a,
    }
}

/// The image that a message completes, with its window.
pub open spec fn push_result(a: AssemblerView, msg: HostMessage) -> Option<(WindowId, Seq<u8>)> {
    match msg {
        HostMessage::TransientBlit { window_id, seq, chunk_index, chunk_count, data_b64 } => match a.image_done(
            window_id,
            seq,
            chunk_index,
            chunk_count,
            base64_data(data_b64@),
        ) {
            Some(png) => Some((window_id, png)),
            None => None,
        },
        _ => None,
    }
}

/// A message brings the announced number of chunks, but not each of them.
pub open spec fn push_has_gap(a: AssemblerView, msg: HostMessage) -> bool {
    match msg {
        HostMessage::TransientBlit { window_id, seq, chunk_index, chunk_count, data_b64 } => a.has_gap(
            window_id,
            seq,
            chunk_index,
            chunk_count,
            base64_data(data_b64@),
        ),
        _ => false,
    }
}

/// An image whose chunks do not add up.
#[derive(Debug, Clone, Copy, PartialEq, Eq, Structural)]
pub struct MissingChunk {
    pub window_id: WindowId,
}

pub open spec fn bytes_view(data: Option<Vec<u8>>) -> Option<Seq<u8>> {
    match data {
        Some(d) => Some(d@),
        None => None,
    }
}

pub open spec fn image_view(r: Option<(WindowId, Vec<u8>)>) -> Option<(WindowId, Seq<u8>)> {
    match r {
        Some((w, d)) => Some((w, d@)),
        None => None,
    }
}

/// Concatenates the chunks `0..count`.
fn join(received: &HashMap<u16, Vec<u8>>, count: u16) -> (out: Vec<u8>)
    requires
        forall|i: u16| i < count ==> #[trigger] received@.contains_key(i),
    ensures
        out@ == joined(received@.map_values(|d: Vec<u8>| d@), count as nat),
{
    let ghost views = received@.map_values(|d: Vec<u8>| d@);
    let mut out: Vec<u8> = Vec::new();
    let mut i: u16 = 0;
    while i < count
        invariant
            i <= count,
            views == received@.map_values(|d: Vec<u8>| d@),
            forall|k: u16| k < count ==> #[trigger] received@.contains_key(k),
            out@ == joined(views, i as nat),
        decreases count - i,
    {
        assert(received@.contains_key(i));
        if let Some(d) = received.get(&i) {
            extend(&mut out, d.as_slice());
        }
        i += 1;
        assert(out@ == joined(views, i as nat));
    }
    out
}

impl BlitAssembler {
    pub fn new() -> (a: BlitAssembler)
        ensures
            a@ == (AssemblerView { partials: Map::empty(), completed: Map::empty() }),
    {
        let a = BlitAssembler { partials: HashMap::new(), last_completed_seq: HashMap::new() };
        assert(a@.partials =~= Map::<WindowId, PartialView>::empty());
        assert(a@.completed =~= Map::<WindowId, u32>::empty());
        a
    }

    /// Whether a chunk's image is already completed.
    fn stale(&self, window_id: WindowId, seq: u32) -> (b: bool)
        ensures
            b == self@.is_stale(window_id, seq),
    {
        match self.last_completed_seq.get(&window_id) {
            Some(completed) => seq <= *completed,
            None => false,
        }
    }

    /// Takes the image that a chunk belongs to out of the partial ones.
    fn take_image(&mut self, window_id: WindowId, seq: u32, chunk_count: u16) -> (p: Partial)
        ensures
            p@ == old(self)@.image(window_id, seq, chunk_count),
            final(self)@ == (AssemblerView {
                partials: old(self)@.partials.remove(window_id),
                ..old(self)@
            }),
    {
        let ghost before = self.partials@;
        let taken: Option<Partial> = self.partials.remove(&window_id);
        assert(partial_views(self.partials@) =~= partial_views(before).remove(window_id));
        match taken {
            Some(p) => {
                assert(partial_views(before)[window_id] == p@);
                if seq <= p.seq {
                    return p;
                }
            },
            None => {},
        }
        let p = Partial { seq, chunk_count, received: HashMap::new() };
        assert(p@.received =~= Map::<u16, Seq<u8>>::empty());
        p
    }

    /// Takes a chunk, decoded if it could be; hands the image over with its
    /// last chunk.
    pub fn accept(
        &mut self,
        window_id: WindowId,
        seq: u32,
        index: u16,
        chunk_count: u16,
        data: Option<Vec<u8>>,
    ) -> (r: Option<Vec<u8>>)
        requires
            !old(self)@.has_gap(window_id, seq, index, chunk_count, bytes_view(data)),
        ensures
            final(self)@ == old(self)@.accepted(
                window_id,
                seq,
                index,
                chunk_count,
                bytes_view(data),
            ),
            bytes_view(r) == old(self)@.image_done(
                window_id,
                seq,
                index,
                chunk_count,
                bytes_view(data),
            ),
    {
        let ghost before = self@;
        if self.stale(window_id, seq) {
            return None;
        }
        let data: Vec<u8> = match data {
            Some(d) => d,
            None => return None,
        };
        let ghost bytes = data@;
        let mut image: Partial = self.take_image(window_id, seq, chunk_count);
        let ghost old_image = image@;
        if seq < image.seq {
            let ghost rest = self.partials@;
            let _ = self.partials.insert(window_id, image);
            assert(partial_views(self.partials@) =~= partial_views(rest).insert(
                window_id,
                old_image,
            ));
            assert(self@.partials =~= before.partials);
            return None;
        }
        let _ = image.received.insert(index, data);
        assert(image@.received =~= old_image.received.insert(index, bytes));
        assert(image.received@.dom() =~= image@.received.dom());
        let got: usize = image.received.len();
        if got % 65536 == image.chunk_count as usize {
            assert forall|i: u16| i < image.chunk_count implies #[trigger] image.received@.contains_key(
                i,
            ) by {
                assert(image@.received.contains_key(i));
            }
            let out: Vec<u8> = join(&image.received, image.chunk_count);
            let _ = self.last_completed_seq.insert(window_id, seq);
            Some(out)
        } else {
            let ghost new_image = image@;
            let ghost rest = self.partials@;
            let _ = self.partials.insert(window_id, image);
            assert(partial_views(self.partials@) =~= partial_views(rest).insert(
                window_id,
                new_image,
            ));
            assert(self@.partials =~= before.partials.insert(window_id, new_image));
            None
        }
    }

    /// Whether a chunk would bring the announced number of chunks without
    /// each of them.
    fn gap(&self, window_id: WindowId, seq: u32, index: u16, chunk_count: u16, data: &Vec<u8>) -> (b:
        bool)
        ensures
            b == self@.has_gap(window_id, seq, index, chunk_count, Some(data@)),
    {
        if self.stale(window_id, seq) {
            return false;
        }
        let ghost image = self@.image(window_id, seq, chunk_count);
        let ghost more = image.received.insert(index, data@);
        let mut under_way: Option<&Partial> = None;
        if let Some(p) = self.partials.get(&window_id) {
            assert(partial_views(self.partials@)[window_id] == p@);
            if seq < p.seq {
                return false;
            }
            if seq == p.seq {
                under_way = Some(p);
            }
        }
        match under_way {
            None => {
                assert(image.received == Map::<u16, Seq<u8>>::empty());
                assert(more.dom() =~= Set::<u16>::empty().insert(index));
                assert(more.len() == 1);
                let gap: bool = chunk_count == 1 && index != 0;
                if gap {
                    assert(!more.contains_key(0u16));
                }
                gap
            },
            Some(p) => {
                assert(image == p@);
                assert(p.received@.dom() =~= image.received.dom());
                let known: bool = p.received.contains_key(&index);
                let held: usize = p.received.len();
                proof {
                    assert(image.received.dom().finite());
                    assert(more.dom() =~= image.received.dom().insert(index));
                    indices_bound(image.received.dom());
                }
                let got: usize = if known {
                    held
                } else {
                    held + 1
                };
                assert(got == more.len());
                if got % 65536 != p.chunk_count as usize {
                    return false;
                }
                let mut i: u16 = 0;
                while i < p.chunk_count
                    invariant
                        i <= p.chunk_count,
                        image == p@,
                        more == image.received.insert(index, data@),
                        p.received@.dom() =~= image.received.dom(),
                        forall|k: u16| k < i ==> #[trigger] more.contains_key(k),
                        self@.counts(window_id, seq, chunk_count),
                        self@.completes(window_id, seq, index, chunk_count, data@),
                        image == self@.image(window_id, seq, chunk_count),
                    decreases p.chunk_count - i,
                {
                    if i != index && !p.received.contains_key(&i) {
                        assert(!more.contains_key(i));
                        return true;
                    }
                    assert(more.contains_key(i));
                    i += 1;
                }
                false
            },
        }
    }

    /// Takes a message; hands the image over with its last chunk.
    pub fn push(&mut self, msg: &HostMessage) -> (r: Option<(WindowId, Vec<u8>)>)
        requires
            !push_has_gap(old(self)@, *msg),
        ensures
            final(self)@ == pushed(old(self)@, *msg),
            image_view(r) == push_result(old(self)@, *msg),
    {
        if let HostMessage::TransientBlit {
            window_id,
            seq,
            chunk_index,
            chunk_count,
            data_b64,
        } = msg {
            let data: Option<Vec<u8>> = decode(data_b64.as_str());
            assert(bytes_view(data) == base64_data(data_b64@));
            match self.accept(*window_id, *seq, *chunk_index, *chunk_count, data) {
                Some(png) => Some((*window_id, png)),
                None => None,
            }
        } else {
            None
        }
    }

    /// Takes a message as [`BlitAssembler::push`] does, unless its image's
    /// chunks do not add up: then nothing changes.
    pub fn try_push(&mut self, msg: &HostMessage) -> (r: Result<
        Option<(WindowId, Vec<u8>)>,
        MissingChunk,
    >)
        ensures
            push_has_gap(old(self)@, *msg) ==> r == Err::<Option<(WindowId, Vec<u8>)>, MissingChunk>(
                MissingChunk { window_id: msg->TransientBlit_window_id },
            ) && final(self)@ == old(self)@,
            !push_has_gap(old(self)@, *msg) ==> {
                &&& r is Ok
                &&& image_view(r->Ok_0) == push_result(old(self)@, *msg)
                &&& final(self)@ == pushed(old(self)@, *msg)
            },
    {
        if let HostMessage::TransientBlit {
            window_id,
            seq,
            chunk_index,
            chunk_count,
            data_b64,
        } = msg {
            if let Some(data) = decode(data_b64.as_str()) {
                if self.gap(*window_id, *seq, *chunk_index, *chunk_count, &data) {
                    return Err(MissingChunk { window_id: *window_id });
                }
            }
        }
        Ok(self.push(msg))
    }

    /// Drop all state for `window_id`: call when the host reports the window
    /// closed. Without this, a recycled CGWindowID's fresh images would be
    /// rejected forever as stale, and the maps grow unbounded across menu
    /// churn.
    pub fn forget(&mut self, window_id: WindowId)
        ensures
            final(self)@ == old(self)@.forgotten(window_id),
    {
        let ghost before = self.partials@;
        let _ = self.partials.remove(&window_id);
        assert(partial_views(self.partials@) =~= partial_views(before).remove(window_id));
        let _ = self.last_completed_seq.remove(&window_id);
        assert(self@.completed =~= old(self)@.completed.remove(window_id));
    }
}

/// A set of 16-bit indices has at most 65536 members.
proof fn indices_bound(s: Set<u16>)
    requires
        s.finite(),
    ensures
        s.len() <= 65536,
{
    let f = |i: u16| i as int;
    let image = s.map(f);
    let all = vstd::set_lib::set_int_range(0, 65536);
    vstd::set_lib::lemma_int_range(0, 65536);
    vstd::set_lib::lemma_map_size(s, image, f);
    assert(image.subset_of(all));
    vstd::set_lib::lemma_len_subset(image, all);
}

impl Default for BlitAssembler {
    fn default() -> (a: BlitAssembler)
        ensures
            a@ == (AssemblerView { partials: Map::empty(), completed: Map::empty() }),
    {
        BlitAssembler::new()
    }
}

} // verus!
