//! The wire framing: post frames, read requests and the reading of responses.
//!
//! Every frame is a run of self-delimiting CBOR items: an operation name
//! followed by its arguments. Frames are written back to back with no
//! wrapping, so a buffer of several post frames is their concatenation.
use vstd::prelude::*;

verus! {

/// The bytes that ciborium writes for the operation `Post` followed by the
/// tuple `(title, tag, payload)`, the payload as a CBOR byte string.
pub uninterp spec fn cbor_post_frame(title: Seq<char>, tag: Seq<char>, payload: Seq<u8>) -> Seq<u8>;

/// The bytes that ciborium writes for the operation `Read` followed by the
/// tuple `(title, tag, revisions)`.
pub uninterp spec fn cbor_read_frame(
    title: Seq<char>,
    tag: Option<Seq<char>>,
    revisions: Seq<u64>,
) -> Seq<u8>;

/// Relies on `ciborium::into_writer`, called on `Operation::Post` of
/// bulletin-board-common and then on `(title, tag, ByteBuf)`: the bytes depend
/// on the values alone. Writing into a `Vec` cannot fail (ciborium's serializer
/// only fails on its writer's errors for strings, byte strings and tuples).
#[verifier::external_body]
fn cbor_encode_post(title: &String, tag: &String, payload: &Vec<u8>) -> (r: Vec<u8>)
    ensures
        r@ == cbor_post_frame(title@, tag@, payload@),
{
    let mut buf: Vec<u8> = Vec::new();
    let data = serde_bytes::ByteBuf::from(payload.clone());
    ciborium::into_writer(&bulletin_board_common::Operation::Post, &mut buf).expect("Vec write");
    ciborium::into_writer(&(title, tag, data), &mut buf).expect("Vec write");
    buf
}

/// Relies on `ciborium::into_writer`, called on `Operation::Read` of
/// bulletin-board-common and then on `(title, tag, revisions)`: the bytes depend
/// on the values alone, and writing into a `Vec` cannot fail.
#[verifier::external_body]
fn cbor_encode_read(title: &String, tag: &Option<String>, revisions: &Vec<u64>) -> (r: Vec<u8>)
    ensures
        r@ == cbor_read_frame(title@, opt_view(*tag), revisions@),
{
    let mut buf: Vec<u8> = Vec::new();
    ciborium::into_writer(&bulletin_board_common::Operation::Read, &mut buf).expect("Vec write");
    ciborium::into_writer(&(title, tag, revisions), &mut buf).expect("Vec write");
    buf
}

/// One named, tagged snapshot, ready to be sent: `payload` is the packed form
/// of the value.
#[derive(Debug)]
pub struct Record {
    pub title: String,
    pub tag: String,
    pub payload: Vec<u8>,
}

/// What a record is, mathematically: title, tag and payload.
pub struct RecordView {
    pub title: Seq<char>,
    pub tag: Seq<char>,
    pub payload: Seq<u8>,
}

impl View for Record {
    type V = RecordView;

    open spec fn view(&self) -> RecordView {
        RecordView { title: self.title@, tag: self.tag@, payload: self.payload@ }
    }
}

/// The view of an optional string.
pub open spec fn opt_view(o: Option<String>) -> Option<Seq<char>> {
    match o {
        Some(s) => Some(s@),
        None => None,
    }
}

/// The post frame of one record.
pub open spec fn post_frame(r: RecordView) -> Seq<u8> {
    cbor_post_frame(r.title, r.tag, r.payload)
}

/// The post frames of `rs`, back to back, in order.
pub open spec fn frames_of(rs: Seq<RecordView>) -> Seq<u8>
    decreases rs.len(),
{
    if rs.len() == 0 {
        Seq::empty()
    } else {
        frames_of(rs.drop_last()) + post_frame(rs.last())
    }
}

/// The views of a sequence of records.
pub open spec fn views_of(rs: Seq<Record>) -> Seq<RecordView> {
    rs.map_values(|r: Record| r@)
}

/// The revisions that a read asks for: none for the most recent one.
pub open spec fn revisions_of(revision: Option<u64>) -> Seq<u64> {
    match revision {
        Some(v) => seq![v],
        None => Seq::empty(),
    }
}

/// The post frame of `record`.
pub fn encode_post(record: &Record) -> (r: Vec<u8>)
    ensures
        r@ == post_frame(record@),
{
    cbor_encode_post(&record.title, &record.tag, &record.payload)
}

/// The post frames of `records`, back to back, in order: what is written on one
/// connection for them.
pub fn encode_posts(records: &Vec<Record>) -> (r: Vec<u8>)
    ensures
        r@ == frames_of(views_of(records@)),
{
    let mut out: Vec<u8> = Vec::new();
    let mut i: usize = 0;
    while i < records.len()
        invariant
            i <= records@.len(),
            out@ == frames_of(views_of(records@.take(i as int))),
        decreases records@.len() - i,
    {
        let mut frame = encode_post(&records[i]);
        proof {
            let s = views_of(records@.take(i as int + 1));
            assert(s.drop_last() =~= views_of(records@.take(i as int)));
            assert(s.last() == records@[i as int]@);
        }
        out.append(&mut frame);
        i = i + 1;
    }
    assert(records@.take(records@.len() as int) =~= records@);
    out
}

/// The read request for `title`, narrowed by `tag` if given, for `revision`
/// if given and the most recent revision otherwise.
pub fn read_request(title: &String, tag: &Option<String>, revision: Option<u64>) -> (r: Vec<u8>)
    ensures
        r@ == cbor_read_frame(title@, opt_view(*tag), revisions_of(revision)),
{
    let revisions = match revision {
        Some(v) => vec![v],
        None => Vec::new(),
    };
    assert(revisions@ =~= revisions_of(revision));
    cbor_encode_read(title, tag, &revisions)
}

/// The collector's answer to a read request.
#[derive(Debug)]
pub enum Response {
    /// Exactly one entry matched; its payload follows.
    Found,
    NotFound,
    /// The request matched several entries, identified by these strings.
    NotUnique(Vec<String>),
}

/// Why a read failed.
#[derive(Debug)]
pub enum ReadError {
    /// Nothing matched the request.
    NotFound,
    /// Several entries matched; the candidates let the caller narrow the
    /// request by tag or revision.
    AmbiguousMatch(Vec<String>),
}

/// What a response means for the read: on `Found` the payload follows on the
/// connection; otherwise the read fails with the matching error.
pub fn response_outcome(response: Response) -> (r: Result<(), ReadError>)
    ensures
        response is Found <==> r is Ok,
        response is NotFound <==> r matches Err(ReadError::NotFound),
        response matches Response::NotUnique(list) ==> r matches Err(ReadError::AmbiguousMatch(
            c,
        )) && c@ == list@,
{
    match response {
        Response::Found => Ok(()),
        Response::NotFound => Err(ReadError::NotFound),
        Response::NotUnique(list) => Err(ReadError::AmbiguousMatch(list)),
    }
}

} // verus!
