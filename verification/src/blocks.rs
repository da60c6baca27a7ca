//! Streams of blocks.

use crate::api::F1r3flyApi;
use crate::error::{ApiError, ErrorView};
use crate::service::{clone_texts, LightBlockInfo, ServiceError};
use vstd::prelude::*;

verus! {

/// A request for the blocks of the main chain.
#[derive(Debug, Clone, Copy, PartialEq, Eq, Structural)]
pub struct BlocksQuery {
    /// How many blocks are wanted.
    pub depth: i32,
}

/// A request for the blocks in a range of heights, both ends included.
#[derive(Debug, Clone, Copy, PartialEq, Eq, Structural)]
pub struct BlocksQueryByHeight {
    pub start_block_number: i64,
    pub end_block_number: i64,
}

/// What comes next in a stream of blocks.
#[derive(Debug)]
pub enum StreamItem<B> {
    /// The stream broke or was never opened, and what was said of it.
    Failed(String),
    /// The stream is at its end.
    End,
    /// A message without content.
    Empty,
    /// The node reported an error.
    Error(ServiceError),
    /// A block.
    Block(B),
}

/// What to do after an item of a stream of blocks.
#[derive(Debug)]
pub enum StreamStep<B> {
    /// Read on. The blocks are those so far.
    Continue(Vec<B>),
    /// Stop.
    Finished(Result<Vec<B>, ApiError>),
}

/// The mathematical value of a [`StreamStep`].
pub enum StreamView<B> {
    Continue(Seq<B>),
    Finished(Result<Seq<B>, ErrorView>),
}

impl<B> View for StreamStep<B> {
    type V = StreamView<B>;

    open spec fn view(&self) -> StreamView<B> {
        match *self {
            StreamStep::Continue(blocks) => StreamView::Continue(blocks@),
            StreamStep::Finished(Ok(blocks)) => StreamView::Finished(Ok(blocks@)),
            StreamStep::Finished(Err(e)) => StreamView::Finished(Err(e@)),
        }
    }
}

/// What follows from an item of a stream.
pub open spec fn after_item<B>(blocks: Seq<B>, item: StreamItem<B>) -> StreamView<B> {
    match item {
        StreamItem::Failed(said) => StreamView::Finished(Err(ErrorView::Transport(said@))),
        StreamItem::End => StreamView::Finished(Ok(blocks)),
        StreamItem::Empty => StreamView::Continue(blocks),
        StreamItem::Error(e) => StreamView::Finished(
            Err(ErrorView::BlockStream(e.messages.deep_view())),
        ),
        StreamItem::Block(block) => StreamView::Continue(blocks.push(block)),
    }
}

/// What follows from the items of a stream, one after the other. What comes after the last one
/// that is read is ignored.
pub open spec fn after_items<B>(blocks: Seq<B>, items: Seq<StreamItem<B>>) -> StreamView<B>
    decreases items.len(),
{
    if items.len() == 0 {
        StreamView::Continue(blocks)
    } else {
        match after_item(blocks, items.first()) {
            StreamView::Continue(more) => after_items(more, items.drop_first()),
            StreamView::Finished(res) => StreamView::Finished(res),
        }
    }
}

/// The blocks among items of a stream.
pub open spec fn blocks_among<B>(items: Seq<StreamItem<B>>) -> Seq<B>
    decreases items.len(),
{
    if items.len() == 0 {
        seq![]
    } else {
        let before = blocks_among(items.drop_last());
        match items.last() {
            StreamItem::Block(block) => before.push(block),
            _ => before,
        }
    }
}

/// The number of the latest block, given the main chain from it downwards. A chain without a
/// block is at its beginning.
pub open spec fn latest_number(blocks: Seq<LightBlockInfo>) -> i64 {
    if blocks.len() == 0 {
        0
    } else {
        blocks[0].block_number
    }
}

impl<'a> F1r3flyApi<'a> {
    /// Asks for the blocks of the main chain. A depth over the greatest `i32` wraps round.
    pub fn show_main_chain(&self, depth: u32) -> (res: BlocksQuery)
        ensures
            depth <= i32::MAX ==> res.depth == depth,
            depth > i32::MAX ==> res.depth == depth - 0x1_0000_0000,
    {
        proof {
            assert(depth > 0x7fff_ffff ==> (depth as i32) == depth - 0x1_0000_0000) by (bit_vector);
        }
        BlocksQuery { depth: depth as i32 }
    }

    /// Asks for the blocks in a range of heights.
    pub fn get_blocks_by_height(&self, start_block_number: i64, end_block_number: i64) -> (res:
        BlocksQueryByHeight)
        ensures
            res == (BlocksQueryByHeight { start_block_number, end_block_number }),
    {
        BlocksQueryByHeight { start_block_number, end_block_number }
    }
}

/// Takes in an item of a stream of blocks.
pub fn take_item<B>(blocks: Vec<B>, item: StreamItem<B>) -> (res: StreamStep<B>)
    ensures
        res@ == after_item(blocks@, item),
        item matches StreamItem::Block(block) ==> (res matches StreamStep::Continue(more) && more@
            == blocks@.push(block)),
        item is Empty ==> (res matches StreamStep::Continue(more) && more@ == blocks@),
        item is End ==> (res matches StreamStep::Finished(Ok(all)) && all@ == blocks@),
        item matches StreamItem::Failed(said) ==> (res matches StreamStep::Finished(
            Err(ApiError::Transport(t)),
        ) && t@ == said@),
        item matches StreamItem::Error(e) ==> (res matches StreamStep::Finished(
            Err(ApiError::BlockStream(messages)),
        ) && messages.deep_view() == e.messages.deep_view()),
{
    match item {
        StreamItem::Failed(said) => StreamStep::Finished(Err(ApiError::Transport(said))),
        StreamItem::End => StreamStep::Finished(Ok(blocks)),
        StreamItem::Empty => StreamStep::Continue(blocks),
        StreamItem::Error(e) => {
            StreamStep::Finished(Err(ApiError::BlockStream(clone_texts(&e.messages))))
        },
        StreamItem::Block(block) => {
            let mut more = blocks;
            more.push(block);
            StreamStep::Continue(more)
        },
    }
}

impl<'a> F1r3flyApi<'a> {
    /// The number of the latest block, from what came of asking for the main chain to a depth of
    /// one.
    pub fn get_current_block_number(&self, blocks: Result<Vec<LightBlockInfo>, ApiError>) -> (res:
        Result<i64, ApiError>)
        ensures
            match blocks {
                Ok(blocks) => res is Ok && res->Ok_0 == latest_number(blocks@),
                Err(e) => res is Err && res->Err_0 == e,
            },
            blocks matches Ok(list) ==> {
                &&& list@.len() >= 1 ==> res == Ok::<i64, ApiError>(list@[0].block_number)
                &&& list@.len() == 0 ==> res == Ok::<i64, ApiError>(0)
            },
    {
        match blocks {
            Ok(blocks) => if blocks.len() > 0 {
                Ok(blocks[0].block_number)
            } else {
                Ok(0)
            },
            Err(e) => Err(e),
        }
    }
}

/// A stream that runs to its end without an error gives its blocks, all of them and in order.
pub proof fn lemma_stream_gives_its_blocks<B>(blocks: Seq<B>, items: Seq<StreamItem<B>>)
    requires
        forall|i: int|
            0 <= i < items.len() ==> (#[trigger] items[i]) is Empty || items[i] is Block,
    ensures
        after_items(blocks, items.push(StreamItem::End)) == StreamView::Finished(
            Ok::<Seq<B>, ErrorView>(blocks + blocks_among(items)),
        ),
    decreases items.len(),
{
    let all = items.push(StreamItem::End);
    if items.len() == 0 {
        assert(all.first() is End);
        assert(blocks + blocks_among(items) =~= blocks);
    } else {
        let rest = items.drop_first();
        assert(all.first() == items[0]);
        assert(all.drop_first() =~= rest.push(StreamItem::End));
        lemma_blocks_among_first(items);
        assert forall|i: int| 0 <= i < rest.len() implies (#[trigger] rest[i]) is Empty
            || rest[i] is Block by {
            assert(rest[i] == items[i + 1]);
        }
        match items[0] {
            StreamItem::Block(block) => {
                lemma_stream_gives_its_blocks(blocks.push(block), rest);
                assert(blocks.push(block) + blocks_among(rest) =~= blocks + blocks_among(items));
            },
            _ => {
                lemma_stream_gives_its_blocks(blocks, rest);
            },
        }
    }
}

/// The blocks among items are the one at the front, where there is one, and those after it.
proof fn lemma_blocks_among_first<B>(items: Seq<StreamItem<B>>)
    requires
        items.len() > 0,
    ensures
        blocks_among(items) == (match items[0] {
            StreamItem::Block(block) => seq![block] + blocks_among(items.drop_first()),
            _ => blocks_among(items.drop_first()),
        }),
    decreases items.len(),
{
    let rest = items.drop_first();
    if items.len() == 1 {
        assert(items.drop_last() =~= seq![]);
        assert(rest =~= seq![]);
        assert(items.last() == items[0]);
        assert(blocks_among(items.drop_last()) =~= seq![]);
        match items[0] {
            StreamItem::Block(block) => {
                assert(blocks_among(items) =~= seq![block] + blocks_among(rest));
            },
            _ => {},
        }
    } else {
        let head = items.drop_last();
        lemma_blocks_among_first(head);
        assert(head.drop_first() =~= rest.drop_last());
        assert(rest.last() == items.last());
        assert(head[0] == items[0]);
        match items[0] {
            StreamItem::Block(block) => {
                assert(blocks_among(items) =~= seq![block] + blocks_among(rest));
            },
            _ => {},
        }
    }
}

/// A stream stops at the first error or break, and none of its blocks are given.
pub proof fn lemma_stream_stops_at_an_error<B>(
    blocks: Seq<B>,
    items: Seq<StreamItem<B>>,
    last: StreamItem<B>,
    rest: Seq<StreamItem<B>>,
)
    requires
        forall|i: int|
            0 <= i < items.len() ==> (#[trigger] items[i]) is Empty || items[i] is Block,
        last is Failed || last is Error,
    ensures
        after_items(blocks, items + seq![last] + rest) == after_item(blocks, last),
        after_item(blocks, last) matches StreamView::Finished(Err(_)),
    decreases items.len(),
{
    let all = items + seq![last] + rest;
    if items.len() == 0 {
        assert(all.first() == last);
    } else {
        let tail = items.drop_first();
        assert(all.first() == items[0]);
        assert(all.drop_first() =~= tail + seq![last] + rest);
        assert forall|i: int| 0 <= i < tail.len() implies (#[trigger] tail[i]) is Empty
            || tail[i] is Block by {
            assert(tail[i] == items[i + 1]);
        }
        match items[0] {
            StreamItem::Block(block) => {
                lemma_stream_stops_at_an_error(blocks.push(block), tail, last, rest);
            },
            _ => {
                lemma_stream_stops_at_an_error(blocks, tail, last, rest);
            },
        }
    }
}

/// The current block is the first of the list, however many follow it; adding blocks behind it
/// changes nothing. Only an empty list stands for the beginning of the chain.
pub proof fn lemma_first_block_is_the_current_one(
    first: LightBlockInfo,
    rest: Seq<LightBlockInfo>,
)
    ensures
        latest_number(seq![first] + rest) == first.block_number,
        latest_number(seq![first]) == first.block_number,
        latest_number(Seq::empty()) == 0,
{
    assert((seq![first] + rest)[0] == first);
}

} // verus!
