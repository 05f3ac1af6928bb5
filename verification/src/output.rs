//! The per-frame output: an arena of payload bytes, a queue of tagged
//! messages, and the index record through which the host finds both.

use crate::arena::{reserved_capacity, Arena};
use crate::output::layout::{
    pointer_width, record_bytes, write_values, FieldDef, FieldKind, FieldValue,
};
use crate::output::message::{
    message_size, message_stride, messages_bytes, write_message, OutputMessage, Params,
};
use crate::record::Record;
use crate::shared::round_up;
use crate::store::record_stored;
use crate::bytes::zeros;
use vstd::arithmetic::power2::is_pow2;
use vstd::prelude::*;

pub mod gpu_shared;
pub mod layout;
pub mod message;
pub mod passes;
pub mod protocol;

verus! {

/// The room that the data arena starts with.
pub const FIRST_DATA: usize = 0xF_0000;

/// The step by which the data arena grows: 4 KiB.
pub const DATA_STEP: usize = 0x1000;

/// The one record that the host reads directly: where the messages of the
/// frame and the data arena are, and how many messages there are.
#[derive(Copy, Clone, Debug, PartialEq, Eq, Structural)]
pub struct OutputIndex {
    pub messages_count: usize,
    /// The size of one message in bytes.
    pub messages_size: usize,
    /// The address of the first message.
    pub messages_ptr: usize,
    /// The address of the data arena.
    pub data_ptr: usize,
}

impl Params for OutputIndex {
    open spec fn spec_defs() -> Seq<FieldDef> {
        seq![
            FieldDef { name: "messages_count", kind: FieldKind::Pointer },
            FieldDef { name: "messages_size", kind: FieldKind::Pointer },
            FieldDef { name: "messages_ptr", kind: FieldKind::Pointer },
            FieldDef { name: "data_ptr", kind: FieldKind::Pointer },
        ]
    }

    open spec fn spec_values(&self) -> Seq<FieldValue> {
        seq![
            FieldValue::Pointer(self.messages_count),
            FieldValue::Pointer(self.messages_size),
            FieldValue::Pointer(self.messages_ptr),
            FieldValue::Pointer(self.data_ptr),
        ]
    }

    proof fn lemma_values_match(&self) {
    }

    fn defs() -> (defs: Vec<FieldDef>) {
        vec![
            FieldDef { name: "messages_count", kind: FieldKind::Pointer },
            FieldDef { name: "messages_size", kind: FieldKind::Pointer },
            FieldDef { name: "messages_ptr", kind: FieldKind::Pointer },
            FieldDef { name: "data_ptr", kind: FieldKind::Pointer },
        ]
    }

    fn values(&self) -> (values: Vec<FieldValue>) {
        vec![
            FieldValue::Pointer(self.messages_count),
            FieldValue::Pointer(self.messages_size),
            FieldValue::Pointer(self.messages_ptr),
            FieldValue::Pointer(self.data_ptr),
        ]
    }
}

/// The address of the first byte.
///
/// Trusted: `<[u8]>::as_ptr` gives the address at which the bytes lie. It is
/// a matter of the machine and of the moment, so nothing is said of it.
#[verifier::external_body]
fn storage_address(bytes: &[u8]) -> usize {
    bytes.as_ptr() as usize
}

/// What the simulation hands to the host after each step: the messages of the
/// frame, the data that they point into, and the index that says where both
/// are.
pub struct GameOutput {
    output_index: OutputIndex,
    index_block: Arena,
    messages: Vec<OutputMessage>,
    message_block: Arena,
    data: Arena,
}

impl GameOutput {
    /// The index as it was last written.
    pub closed spec fn index(&self) -> OutputIndex {
        self.output_index
    }

    /// The index as the host sees it.
    pub closed spec fn index_bytes(&self) -> Seq<u8> {
        self.index_block.written()
    }

    /// The messages of the frame, in the order in which the host works
    /// through them.
    pub closed spec fn messages(&self) -> Seq<OutputMessage> {
        self.messages@
    }

    /// The messages as the host sees them.
    pub closed spec fn message_bytes(&self) -> Seq<u8> {
        self.message_block.written()
    }

    /// The data of the frame.
    pub closed spec fn data(&self) -> Seq<u8> {
        self.data.written()
    }

    /// The room that the data arena has, written or not.
    pub closed spec fn data_capacity(&self) -> nat {
        self.data.spec_capacity()
    }

    /// The three arenas are in order, and what the host sees is what the
    /// index and the messages say.
    pub closed spec fn wf(&self) -> bool {
        &&& self.index_block.wf()
        &&& self.message_block.wf()
        &&& self.data.wf()
        &&& self.index_block.written() == record_bytes(
            self.output_index.spec_values(),
            pointer_width(),
        )
        &&& self.message_block.written() == messages_bytes(
            self.messages@,
            self.messages@.len(),
            pointer_width(),
        )
        &&& self.output_index.messages_size == message_size(pointer_width())
        &&& self.data.spec_granularity() == DATA_STEP
    }

    /// What `wf` says of the bytes that the host sees.
    pub proof fn lemma_host_view(&self)
        requires
            self.wf(),
        ensures
            self.index_bytes() == record_bytes(self.index().spec_values(), pointer_width()),
            self.message_bytes() == messages_bytes(
                self.messages(),
                self.messages().len(),
                pointer_width(),
            ),
            self.index().messages_size == message_size(pointer_width()),
    {
    }

    /// An output without messages and without data. The index says so.
    pub fn new() -> (output: GameOutput)
        ensures
            output.wf(),
            output.messages() == Seq::<OutputMessage>::empty(),
            output.data() == Seq::<u8>::empty(),
            output.index() == (OutputIndex {
                messages_count: 0,
                messages_size: message_size(pointer_width()) as usize,
                messages_ptr: 0,
                data_ptr: 0,
            }),
            output.data_capacity() == FIRST_DATA,
    {
        proof {
            reveal_with_fuel(is_pow2, 17);
        }
        let output_index = OutputIndex {
            messages_count: 0,
            messages_size: message_stride(),
            messages_ptr: 0,
            data_ptr: 0,
        };
        let mut index_block = Arena::new(64, 64);
        let values = output_index.values();
        write_values(&mut index_block, values.as_slice());
        let output = GameOutput {
            output_index,
            index_block,
            messages: Vec::new(),
            message_block: Arena::new(0x1000, 0x1000),
            data: Arena::new(FIRST_DATA, DATA_STEP),
        };
        assert(output.index_block.written() =~= record_bytes(
            output.output_index.spec_values(),
            pointer_width(),
        ));
        output
    }

    /// The index as it was last written.
    pub fn output_index(&self) -> (index: OutputIndex)
        ensures
            index == self.index(),
    {
        self.output_index
    }

    /// The index as the host sees it. The bytes stay where they are as long
    /// as the output lives.
    pub fn index_block(&self) -> (bytes: &[u8])
        requires
            self.wf(),
        ensures
            bytes@ == self.index_bytes(),
    {
        self.index_block.as_slice()
    }

    /// The messages of the frame.
    pub fn message_list(&self) -> (messages: &Vec<OutputMessage>)
        ensures
            messages@ == self.messages(),
    {
        &self.messages
    }

    /// The messages as the host sees them.
    pub fn message_block(&self) -> (bytes: &[u8])
        requires
            self.wf(),
        ensures
            bytes@ == self.message_bytes(),
    {
        self.message_block.as_slice()
    }

    /// The data of the frame.
    pub fn data_block(&self) -> (bytes: &[u8])
        requires
            self.wf(),
        ensures
            bytes@ == self.data(),
    {
        self.data.as_slice()
    }

    /// The number of bytes of data written in this frame.
    pub fn data_offset(&self) -> (offset: usize)
        requires
            self.wf(),
        ensures
            offset == self.data().len(),
    {
        self.data.cursor()
    }

    /// Begins a frame: no messages, no data. The index is not touched: it
    /// says what it said until it is written again.
    pub fn clear_index(&mut self)
        requires
            old(self).wf(),
        ensures
            final(self).wf(),
            final(self).messages() == Seq::<OutputMessage>::empty(),
            final(self).data() == Seq::<u8>::empty(),
            final(self).index() == old(self).index(),
            final(self).index_bytes() == old(self).index_bytes(),
            final(self).data_capacity() == old(self).data_capacity(),
    {
        self.data.reset();
        self.messages.clear();
        self.message_block.reset();
    }

    /// Ends a frame: the index says how many messages there are, and where
    /// the messages and the data lie now.
    pub fn write_index(&mut self)
        requires
            old(self).wf(),
        ensures
            final(self).wf(),
            final(self).messages() == old(self).messages(),
            final(self).data() == old(self).data(),
            final(self).index().messages_count == old(self).messages().len(),
            final(self).index().messages_size == old(self).index().messages_size,
            final(self).data_capacity() == old(self).data_capacity(),
    {
        self.output_index.messages_count = self.messages.len();
        self.output_index.messages_ptr = storage_address(self.message_block.storage());
        self.output_index.data_ptr = storage_address(self.data.storage());
        let values = self.output_index.values();
        self.index_block.reset();
        write_values(&mut self.index_block, values.as_slice());
        assert(self.index_block.written() =~= record_bytes(
            self.output_index.spec_values(),
            pointer_width(),
        ));
    }

    /// Puts a message at the end of the queue.
    pub fn push_message(&mut self, message: OutputMessage)
        requires
            old(self).wf(),
        ensures
            final(self).wf(),
            final(self).messages() == old(self).messages().push(message),
            final(self).data() == old(self).data(),
            final(self).index() == old(self).index(),
            final(self).index_bytes() == old(self).index_bytes(),
            final(self).data_capacity() == old(self).data_capacity(),
    {
        write_message(&mut self.message_block, &message);
        self.messages.push(message);
        proof {
            let after = self.messages@;
            let before = old(self).messages@;
            crate::output::lemma_messages_prefix(before, after, before.len(), pointer_width());
        }
    }

    /// Puts a record at the end of the data.
    pub fn push_data<T: Record>(&mut self, data: &T)
        requires
            old(self).wf(),
        ensures
            final(self).wf(),
            final(self).data() == old(self).data() + record_stored(*data),
            final(self).messages() == old(self).messages(),
            final(self).index() == old(self).index(),
            final(self).index_bytes() == old(self).index_bytes(),
            final(self).data_capacity() >= old(self).data_capacity(),
    {
        let words = data.to_words();
        self.data.write_words(words.as_slice());
    }

    /// Puts bytes at the end of the data, at the next multiple of `align`,
    /// and says where they begin.
    pub fn push_bytes(&mut self, bytes: &[u8], align: usize) -> (data_offset: usize)
        requires
            old(self).wf(),
            align >= 1,
        ensures
            final(self).wf(),
            data_offset == round_up(old(self).data().len() as int, align as int),
            final(self).data() == old(self).data() + zeros(
                (data_offset - old(self).data().len()) as nat,
            ) + bytes@,
            final(self).messages() == old(self).messages(),
            final(self).index() == old(self).index(),
            final(self).index_bytes() == old(self).index_bytes(),
            final(self).data_capacity() >= old(self).data_capacity(),
    {
        self.data.write_aligned(bytes, align)
    }

    /// Puts words at the end of the data, each least significant byte first.
    pub fn push_words(&mut self, words: &[u32])
        requires
            old(self).wf(),
        ensures
            final(self).wf(),
            final(self).data() == old(self).data() + crate::bytes::words_bytes(
                words@,
                words@.len(),
            ),
            final(self).messages() == old(self).messages(),
            final(self).index() == old(self).index(),
            final(self).index_bytes() == old(self).index_bytes(),
            final(self).data_capacity() >= old(self).data_capacity(),
    {
        self.data.write_words(words);
    }

    /// Makes room for `min_size` more bytes of data. Where there is too
    /// little, the arena grows to the next multiple of `DATA_STEP` that holds
    /// what it held and `min_size` bytes more.
    pub fn realloc_data(&mut self, min_size: usize)
        requires
            old(self).wf(),
        ensures
            final(self).wf(),
            final(self).data_capacity() == reserved_capacity(
                old(self).data_capacity(),
                old(self).data().len(),
                min_size as nat,
                DATA_STEP as nat,
            ),
            final(self).data_capacity() - final(self).data().len() >= min_size,
            final(self).data() == old(self).data(),
            final(self).messages() == old(self).messages(),
            final(self).index() == old(self).index(),
            final(self).index_bytes() == old(self).index_bytes(),
            final(self).data_capacity() >= old(self).data_capacity(),
    {
        self.data.reserve(min_size);
    }
}

impl Default for GameOutput {
    fn default() -> (output: GameOutput)
        ensures
            output.wf(),
            output.messages() == Seq::<OutputMessage>::empty(),
            output.data() == Seq::<u8>::empty(),
    {
        GameOutput::new()
    }
}

/// Only the first `n` messages count for `messages_bytes(.., n)`.
pub proof fn lemma_messages_prefix(
    a: Seq<OutputMessage>,
    b: Seq<OutputMessage>,
    n: nat,
    pointer: nat,
)
    requires
        n <= a.len(),
        n <= b.len(),
        forall|i: int| 0 <= i < n ==> a[i] == b[i],
    ensures
        messages_bytes(a, n, pointer) == messages_bytes(b, n, pointer),
    decreases n,
{
    if n > 0 {
        lemma_messages_prefix(a, b, (n - 1) as nat, pointer);
    }
}

} // verus!
