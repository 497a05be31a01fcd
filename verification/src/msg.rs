use vstd::prelude::*;

verus! {

/// What a progress report says: the bytes of a block as they stand, the
/// position within the block that the report is about, and the block's number.
pub struct Update {
    pub block: Seq<u8>,
    pub index: u8,
    pub block_index: usize,
}

/// The contents of a progress report.
pub struct BlockData {
    block: Vec<u8>,
    index: u8,
    block_index: usize,
}

impl View for BlockData {
    type V = Update;

    closed spec fn view(&self) -> Update {
        Update { block: self.block@, index: self.index, block_index: self.block_index }
    }
}

impl BlockData {
    pub fn new(block: Vec<u8>, index: u8, block_index: usize) -> (data: Self)
        ensures
            data@ == (Update { block: block@, index, block_index }),
    {
        BlockData { block, index, block_index }
    }

    pub fn block(&self) -> (block: &Vec<u8>)
        ensures
            block@ == self@.block,
    {
        &self.block
    }

    pub fn index(&self) -> (index: u8)
        ensures
            index == self@.index,
    {
        self.index
    }

    pub fn block_index(&self) -> (block_index: usize)
        ensures
            block_index == self@.block_index,
    {
        self.block_index
    }
}

/// A progress report as a value: its kind and what it says.
pub enum Event {
    Payload(Update),
    Intermediate(Update),
    Plain(Update),
    Done,
}

/// The progress reports of a decryption.
pub enum Messages {
    /// The forged block that is being submitted.
    Payload(BlockData),
    /// A byte of the intermediate block was found.
    Intermediate(BlockData),
    /// A byte of the plaintext was found.
    Plain(BlockData),
    /// Every block has been dealt with.
    Done,
}

impl View for Messages {
    type V = Event;

    open spec fn view(&self) -> Event {
        match self {
            Messages::Payload(d) => Event::Payload(d@),
            Messages::Intermediate(d) => Event::Intermediate(d@),
            Messages::Plain(d) => Event::Plain(d@),
            Messages::Done => Event::Done,
        }
    }
}

/// The views of a list of reports, in order.
pub open spec fn events(reports: Seq<Messages>) -> Seq<Event> {
    reports.map_values(|m: Messages| m@)
}

pub fn pyld(block: Vec<u8>, index: u8, block_index: usize) -> (msg: Messages)
    ensures
        msg@ == Event::Payload(Update { block: block@, index, block_index }),
{
    Messages::Payload(BlockData::new(block, index, block_index))
}

pub fn inter(block: Vec<u8>, index: u8, block_index: usize) -> (msg: Messages)
    ensures
        msg@ == Event::Intermediate(Update { block: block@, index, block_index }),
{
    Messages::Intermediate(BlockData::new(block, index, block_index))
}

pub fn plain(block: Vec<u8>, index: u8, block_index: usize) -> (msg: Messages)
    ensures
        msg@ == Event::Plain(Update { block: block@, index, block_index }),
{
    Messages::Plain(BlockData::new(block, index, block_index))
}

} // verus!
