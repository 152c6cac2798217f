//! The bytes that clients send and get.
use vstd::prelude::*;

verus! {

/// The length of a request, by its header.
pub fn payload_size(header: i32) -> (r: Result<usize, String>)
    ensures
        header >= 0 ==> r == Ok::<usize, String>(header as usize),
        header < 0 ==> r is Err && r->Err_0@ == "negative IPC payload size"@,
{
    if header < 0 {
        Err("negative IPC payload size".to_owned())
    } else {
        Ok(header as usize)
    }
}

/// The complaint about bytes that hold no request.
pub fn payload_error() -> (r: String)
    ensures
        r@ == "invalid IPC payload"@,
{
    "invalid IPC payload".to_owned()
}

/// The bytes of an answer: the text, nothing where there is none, and a mark
/// with the complaint behind it and a line's end for a failure.
pub open spec fn answer_bytes(response: Result<Option<String>, String>, mark: u8) -> Seq<u8> {
    match response {
        Ok(Some(output)) => vstd::utf8::encode_utf8(output@),
        Ok(None) => Seq::empty(),
        Err(error) => seq![mark] + vstd::utf8::encode_utf8(error@) + seq![10u8],
    }
}

/// The bytes of an answer.
pub fn encode_answer(response: &Result<Option<String>, String>, mark: u8) -> (r: Vec<u8>)
    ensures
        r@ == answer_bytes(*response, mark),
{
    match response {
        Ok(Some(output)) => output.as_str().as_bytes_vec(),
        Ok(None) => Vec::new(),
        Err(error) => {
            let mut out: Vec<u8> = Vec::new();
            out.push(mark);
            let mut text = error.as_str().as_bytes_vec();
            out.append(&mut text);
            out.push(10);
            assert(out@ =~= answer_bytes(*response, mark));
            out
        },
    }
}

/// A client reads back the text that it was answered with.
pub proof fn law_answer_reads_back(output: String, mark: u8)
    ensures
        vstd::utf8::decode_utf8(answer_bytes(Ok(Some(output)), mark)) == output@,
{
    vstd::utf8::encode_utf8_decode_utf8(output@);
}

/// A client that sees the mark reads back the complaint behind it.
pub proof fn law_failure_reads_back(error: String, mark: u8)
    ensures
        ({
            let bytes = answer_bytes(Err(error), mark);
            &&& bytes[0] == mark
            &&& vstd::utf8::decode_utf8(bytes.subrange(1, bytes.len() - 1)) == error@
        }),
{
    let bytes = answer_bytes(Err(error), mark);
    assert(bytes.subrange(1, bytes.len() - 1) =~= vstd::utf8::encode_utf8(error@));
    vstd::utf8::encode_utf8_decode_utf8(error@);
}

/// The length of a request is its header, unless that is negative.
pub proof fn law_request_lengths(header: i32, r: Result<usize, String>)
    requires
        call_ensures(payload_size, (header,), r),
    ensures
        header >= 0 ==> r is Ok && r->Ok_0 == header,
        header < 0 ==> r is Err,
{
}

/// A silent answer has no bytes; a failure ends its line.
pub proof fn law_silent_answers(error: String, mark: u8)
    ensures
        answer_bytes(Ok(None), mark).len() == 0,
        answer_bytes(Err(error), mark).last() == 10,
{
}

} // verus!
