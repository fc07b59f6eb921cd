use array_object::adaptor::VecShape;
use array_object::{ArrayObject, Unpack};
use bulletin_board_common::Operation;
use dbgbb::accumulate::AccumulationTable;
use dbgbb::codec::{concat_all, snapshot, snapshots};
use dbgbb::index::indexed_snapshots;
use dbgbb::rename::Rename;
use dbgbb::sender::{Buffer, BufferedSender, Delivery, Transition};
use dbgbb::wire::{encode_posts, read_request, response_outcome, ReadError, Record, Response};
use dbgbb::worker::{Action, Event, Worker};
use nalgebra::DMatrix;
use num_complex::Complex64;
use serde_bytes::ByteBuf;
use std::io::Cursor;

/// A collector kept in memory: it takes post frames and answers reads.
struct Board {
    posts: Vec<(String, String, Vec<u8>)>,
}

impl Board {
    fn new() -> Self {
        Board { posts: vec![] }
    }

    fn receive(&mut self, bytes: &[u8]) {
        let mut cur = Cursor::new(bytes);
        while (cur.position() as usize) < bytes.len() {
            let op: Operation = ciborium::from_reader(&mut cur).unwrap();
            assert!(matches!(op, Operation::Post));
            let (title, tag, data): (String, String, ByteBuf) =
                ciborium::from_reader(&mut cur).unwrap();
            self.posts.push((title, tag, data.into_vec()));
        }
    }

    fn answer(&self, request: &[u8]) -> (Response, Option<Vec<u8>>) {
        let mut cur = Cursor::new(request);
        let op: Operation = ciborium::from_reader(&mut cur).unwrap();
        assert!(matches!(op, Operation::Read));
        let (title, tag, revisions): (String, Option<String>, Vec<u64>) =
            ciborium::from_reader(&mut cur).unwrap();
        assert_eq!(cur.position() as usize, request.len());
        let hits: Vec<&(String, String, Vec<u8>)> = self
            .posts
            .iter()
            .filter(|p| p.0 == title && tag.as_ref().map_or(true, |t| *t == p.1))
            .collect();
        let mut tags: Vec<String> = vec![];
        for h in &hits {
            if !tags.contains(&h.1) {
                tags.push(h.1.clone());
            }
        }
        if hits.is_empty() {
            return (Response::NotFound, None);
        }
        if tags.len() > 1 {
            let list = tags.iter().map(|t| format!("{title}:{t}")).collect();
            return (Response::NotUnique(list), None);
        }
        let payload = match revisions.first() {
            None => hits[hits.len() - 1].2.clone(),
            Some(&rev) => match hits.get(rev as usize) {
                Some(h) => h.2.clone(),
                None => return (Response::NotFound, None),
            },
        };
        (Response::Found, Some(payload))
    }
}

fn post(board: &mut Board, records: Vec<Record>) {
    let sender = BufferedSender::new("127.0.0.1:7578".to_string());
    match sender.post(records) {
        Delivery::Send(bytes) => board.receive(&bytes),
        Delivery::Skip => {}
        Delivery::Enqueue(_) => panic!("an inactive sender does not enqueue"),
    }
}

fn read(
    board: &Board,
    title: &str,
    tag: Option<&str>,
    revision: Option<u64>,
) -> Result<ArrayObject, ReadError> {
    let request = read_request(&title.to_string(), &tag.map(|t| t.to_string()), revision);
    let (response, payload) = board.answer(&request);
    response_outcome(response)?;
    Ok(ArrayObject::unpack(payload.unwrap()).unwrap())
}

fn obj<T: TryInto<ArrayObject>>(x: T) -> ArrayObject
where
    <T as TryInto<ArrayObject>>::Error: std::fmt::Debug,
{
    x.try_into().unwrap()
}

fn post_one(board: &mut Board, title: &str, tag: &str, x: ArrayObject) {
    post(board, vec![snapshot(title.to_string(), tag.to_string(), x)]);
}

#[test]
fn nalgebra_integer() {
    let mut board = Board::new();
    let v: Vec<_> = (-128..128).map(|i| i as i32).collect();
    let nalg = DMatrix::from_vec(16, 16, v);
    post_one(&mut board, "nalg", "tests/external.rs:28:9", obj(nalg.clone()));
    let nalg_recv: DMatrix<i32> = read(&board, "nalg", None, None).unwrap().try_into().unwrap();
    assert_eq!(nalg, nalg_recv);
}

#[test]
fn scalar() {
    let mut board = Board::new();
    post_one(&mut board, "1usize", "t:1:1", obj(1usize as u64));
    let a: u64 = read(&board, "1usize", None, None).unwrap().try_into().unwrap();
    assert_eq!(a as usize, 1usize);
    post_one(&mut board, "1u64", "t:2:1", obj(1u64));
    let a: u64 = read(&board, "1u64", None, None).unwrap().try_into().unwrap();
    assert_eq!(a, 1u64);
    post_one(&mut board, "-1i64", "t:3:1", obj(-1i64));
    let a: i64 = read(&board, "-1i64", None, None).unwrap().try_into().unwrap();
    assert_eq!(a, -1i64);
    post_one(&mut board, "1f64", "t:4:1", obj(1f64));
    let a: f64 = read(&board, "1f64", None, None).unwrap().try_into().unwrap();
    assert_eq!(a, 1f64);
    let c = Complex64::new(1., 2.);
    post_one(&mut board, "Complex64::new(1., 2.)", "t:5:1", obj(c));
    let a: Complex64 = read(&board, "Complex64::new(1., 2.)", None, None)
        .unwrap()
        .try_into()
        .unwrap();
    assert_eq!(a, c);
    post_one(&mut board, "\"text\".to_string()", "t:6:1", obj("text".to_string()));
    let a: String = read(&board, "\"text\".to_string()", None, None)
        .unwrap()
        .try_into()
        .unwrap();
    assert_eq!(a, "text".to_string());
}

#[test]
fn array() {
    let mut board = Board::new();
    let x = vec![1u32, 2u32, 3u32];
    post_one(&mut board, "vec![1u32, 2u32, 3u32]", "t:1:1", obj(x.clone()));
    let a: Vec<u32> = read(&board, "vec![1u32, 2u32, 3u32]", None, None)
        .unwrap()
        .try_into()
        .unwrap();
    assert_eq!(x, a);
}

#[test]
fn accumulate() {
    let mut board = Board::new();
    let mut table = AccumulationTable::new();
    let label = "test".to_string();
    let mut c = vec![];
    for i in 0..12 {
        table.append(&label, &"i".to_string(), &"t:33:9".to_string(), obj(i as i32));
        c.push(i);
    }
    let records = table.flush_label(&label).unwrap();
    assert_eq!(records.len(), 1);
    post(&mut board, records);
    let res: Vec<i32> = read(&board, "i", None, None).unwrap().try_into().unwrap();
    assert_eq!(res, c)
}

#[test]
fn flatten() {
    let mut board = Board::new();
    let vv = vec![vec![1, 2], vec![3, 4]];
    let depth1: Vec<ArrayObject> = vv.iter().map(|inner| obj(inner.clone())).collect();
    let title = vv.get_name().unwrap_or("vv".to_string());
    post(&mut board, snapshots(&title, &"t:45:5".to_string(), depth1));
    let flat1: Vec<i32> = read(&board, "vv", None, None).unwrap().try_into().unwrap();
    assert_eq!(flat1, vec![3, 4]);
    let renamed = vv.rename("vv2");
    let depth2: Vec<ArrayObject> =
        renamed.clone().iter().flat_map(|inner| inner.iter().map(|x| obj(*x))).collect();
    let title = renamed.get_name().unwrap_or("vv.rename(\"vv2\")".to_string());
    post(&mut board, snapshots(&title, &"t:48:5".to_string(), depth2));
    let flat2: i32 = read(&board, "vv2", None, None).unwrap().try_into().unwrap();
    assert_eq!(flat2, 4);
}

#[test]
fn concat() {
    let mut board = Board::new();
    let vv3 = vec![vec![1, 2], vec![3, 4]];
    let objs: Vec<ArrayObject> = vv3.iter().map(|inner| obj(inner.clone())).collect();
    let cat = concat_all(objs).unwrap();
    post_one(&mut board, "vv3", "t:54:5", cat);
    let VecShape::<i32>(v, shape) = read(&board, "vv3", None, None).unwrap().try_into().unwrap();
    assert_eq!(v, vec![1, 2, 3, 4]);
    assert_eq!(shape, vec![2, 2]);
}

#[test]
fn buffer() {
    let mut sender = BufferedSender::new("127.0.0.1:7578".to_string());
    let (buf, transition) = Buffer::on(&mut sender);
    assert_eq!(transition, Transition::Spawn);
    let mut worker = Worker::new(3000, 1000);
    let mut wire: Vec<u8> = vec![];
    let mut direct: Vec<Record> = vec![];
    for i in 0..100 {
        let x = vec![1f64; 100].rename(&i.to_string());
        let name = x.get_name().unwrap();
        direct.push(snapshot(name.clone(), "t:64:9".to_string(), obj(x.clone())));
        let rec = snapshot(name, "t:64:9".to_string(), obj(x.clone()));
        match sender.post(vec![rec]) {
            Delivery::Enqueue(recs) => {
                for r in recs {
                    match worker.step(Event::Post(r), 10) {
                        Action::Continue => {}
                        _ => panic!("no flush is due yet"),
                    }
                }
            }
            _ => panic!("an active sender enqueues"),
        }
    }
    assert_eq!(buf.off(&mut sender), Transition::Join);
    match worker.step(Event::Shutdown, 20) {
        Action::FlushAndStop(bytes) => wire.extend(bytes),
        _ => panic!("the shutdown flushes"),
    }
    assert_eq!(wire, encode_posts(&direct));
    let mut board = Board::new();
    board.receive(&wire);
    assert_eq!(board.posts.len(), 100);
    let a: Vec<f64> = read(&board, "99", None, None).unwrap().try_into().unwrap();
    assert_eq!(a, vec![1f64; 100]);
}

#[test]
fn read_disambiguation() {
    let mut board = Board::new();
    post_one(&mut board, "a", "site:1:1", obj(1i64));
    post_one(&mut board, "a", "site:2:1", obj(2i64));
    match read(&board, "a", None, None) {
        Err(ReadError::AmbiguousMatch(list)) => {
            assert_eq!(list, vec!["a:site:1:1".to_string(), "a:site:2:1".to_string()])
        }
        _ => panic!("two tags are ambiguous"),
    }
    let b: i64 = read(&board, "a", Some("site:2:1"), None).unwrap().try_into().unwrap();
    assert_eq!(b, 2);
    assert!(matches!(read(&board, "absent", None, None), Err(ReadError::NotFound)));
}

#[test]
fn end_to_end_revisions() {
    let mut board = Board::new();
    post_one(&mut board, "x", "site:1:1", obj(5i64));
    post_one(&mut board, "x", "site:1:1", obj(7i64));
    let first: i64 = read(&board, "x", Some("site:1:1"), Some(0)).unwrap().try_into().unwrap();
    assert_eq!(first, 5);
    let latest: i64 = read(&board, "x", Some("site:1:1"), None).unwrap().try_into().unwrap();
    assert_eq!(latest, 7);
}

#[test]
fn accumulate_shape_mismatch_fails() {
    let mut table = AccumulationTable::new();
    let label = "m".to_string();
    table.append(&label, &"v".to_string(), &"t".to_string(), obj(vec![1i32, 2]));
    table.append(&label, &"v".to_string(), &"t".to_string(), obj(vec![1i32, 2, 3]));
    assert!(table.flush_label(&label).is_err());
    assert_eq!(table.flush_label(&label).unwrap().len(), 0);
}

#[test]
fn accumulate_labels_are_separate() {
    let mut board = Board::new();
    let mut table = AccumulationTable::new();
    let (i, j) = ("i".to_string(), "j".to_string());
    for a in 0..3 {
        table.append(&i, &"a".to_string(), &"t:1".to_string(), obj(a as i32));
        table.append(&j, &"a".to_string(), &"t:2".to_string(), obj(10 + a as i32));
    }
    let first = table.flush_label(&i).unwrap();
    assert_eq!(first.len(), 1);
    assert_eq!(table.flush_label(&i).unwrap().len(), 0);
    post(&mut board, first);
    post(&mut board, table.flush_label(&j).unwrap());
    let a: Vec<i32> = read(&board, "a", Some("t:1"), None).unwrap().try_into().unwrap();
    assert_eq!(a, vec![0, 1, 2]);
    let b: Vec<i32> = read(&board, "a", Some("t:2"), None).unwrap().try_into().unwrap();
    assert_eq!(b, vec![10, 11, 12]);
}

#[test]
fn index_tags_positions() {
    let mut board = Board::new();
    let a = vec![vec![1u32, 2], vec![3, 4]];
    let mut elems = vec![];
    for (i, inner) in a.iter().enumerate() {
        for (j, x) in inner.iter().enumerate() {
            elems.push((vec![i, j], obj(*x)));
        }
    }
    let recs = indexed_snapshots(&"a".to_string(), &"src/main.rs:3:5".to_string(), elems);
    let tags: Vec<String> = recs.iter().map(|r| r.tag.clone()).collect();
    assert_eq!(
        tags,
        vec![
            "src/main.rs:3:5:[0,0]",
            "src/main.rs:3:5:[0,1]",
            "src/main.rs:3:5:[1,0]",
            "src/main.rs:3:5:[1,1]"
        ]
    );
    post(&mut board, recs);
    let x: u32 = read(&board, "a", Some("src/main.rs:3:5:[1,0]"), None).unwrap().try_into().unwrap();
    assert_eq!(x, 3);
}

#[test]
fn concat_refuses_mismatch_and_empty() {
    assert!(concat_all(vec![]).is_none());
    assert!(concat_all(vec![obj(vec![1i32]), obj(vec![1i32, 2])]).is_none());
}

#[test]
fn flush_of_compatible_buckets_succeeds() {
    let mut table = AccumulationTable::new();
    let label = "ok".to_string();
    for a in 0..4 {
        table.append(&label, &"v".to_string(), &"t:1".to_string(), obj(vec![a as u8, 1]));
        table.append(&label, &"w".to_string(), &"t:2".to_string(), obj(a as i64));
    }
    let recs = table.flush_label(&label).unwrap();
    assert_eq!(recs.len(), 2);
    assert_eq!((recs[0].title.as_str(), recs[0].tag.as_str()), ("v", "t:1"));
    assert_eq!((recs[1].title.as_str(), recs[1].tag.as_str()), ("w", "t:2"));
    let VecShape::<u8>(v, shape) =
        ArrayObject::unpack(recs[0].payload.clone()).unwrap().try_into().unwrap();
    assert_eq!(v, vec![0, 1, 1, 1, 2, 1, 3, 1]);
    assert_eq!(shape, vec![4, 2]);
    assert!(table.flush_label(&label).unwrap().is_empty());
}

#[test]
fn flush_refuses_mixed_kinds() {
    let mut table = AccumulationTable::new();
    let label = "k".to_string();
    table.append(&label, &"v".to_string(), &"t".to_string(), obj(1i64));
    table.append(&label, &"v".to_string(), &"t".to_string(), obj(1u64));
    assert!(table.flush_label(&label).is_err());
}
