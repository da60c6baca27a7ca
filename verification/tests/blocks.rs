use f1r3fly_client::api::F1r3flyApi;
use f1r3fly_client::blocks::{take_item, StreamItem, StreamStep};
use f1r3fly_client::error::ApiError;
use f1r3fly_client::service::{LightBlockInfo, ServiceError};

const KEY: &str = "5f668a7ee96d944a4494cc947e4005e172d7ab3461ee5538f1f2a45a835e9657";

fn api() -> F1r3flyApi<'static> {
    F1r3flyApi::new(KEY, "localhost", 40412)
}

fn read(items: Vec<StreamItem<u8>>) -> Option<Result<Vec<u8>, String>> {
    let mut blocks = vec![];
    for item in items {
        match take_item(blocks, item) {
            StreamStep::Continue(more) => blocks = more,
            StreamStep::Finished(res) => return Some(res.map_err(|e| e.message())),
        }
    }
    None
}

fn refusal() -> StreamItem<u8> {
    StreamItem::Error(ServiceError {
        messages: vec!["a".to_string(), "b".to_string()],
        display: String::new(),
        debug: String::new(),
    })
}

#[test]
fn depths() {
    assert_eq!(api().show_main_chain(1).depth, 1);
    assert_eq!(api().show_main_chain(0).depth, 0);
    assert_eq!(api().show_main_chain(i32::MAX as u32).depth, i32::MAX);
    assert_eq!(api().show_main_chain(u32::MAX).depth, -1);
    assert_eq!(api().show_main_chain(1 << 31).depth, i32::MIN);
}

#[test]
fn ranges_of_heights() {
    let query = api().get_blocks_by_height(-3, 9);
    assert_eq!(query.start_block_number, -3);
    assert_eq!(query.end_block_number, 9);
}

#[test]
fn a_stream_gives_its_blocks() {
    let items =
        vec![StreamItem::Block(1), StreamItem::Empty, StreamItem::Block(3), StreamItem::End];
    assert_eq!(read(items), Some(Ok(vec![1, 3])));
    assert_eq!(read(vec![StreamItem::End]), Some(Ok(vec![])));
    assert_eq!(read(vec![StreamItem::Block(1)]), None);
}

#[test]
fn a_stream_stops_at_an_error() {
    let items = vec![StreamItem::Block(1), refusal(), StreamItem::Block(2), StreamItem::End];
    assert_eq!(read(items), Some(Err("gRPC Error: a; b".to_string())));
    let items = vec![StreamItem::Block(1), StreamItem::Failed("reset".to_string()), refusal()];
    assert_eq!(read(items), Some(Err("reset".to_string())));
}

#[test]
fn the_current_block_is_the_first() {
    let block = |number| LightBlockInfo { block_hash: "bh".to_string(), block_number: number };
    let number = |blocks| api().get_current_block_number(Ok(blocks)).unwrap();
    assert_eq!(number(vec![block(17), block(16)]), 17);
    assert_eq!(number(vec![]), 0);
    assert_eq!(
        api().get_current_block_number(Err(ApiError::Decode)).unwrap_err().message(),
        "error decoding response body"
    );
}
