//! The addresses of the recording server's API.
use crate::text::{
    decimal_digits,
    decimal_text,
    is_numeral,
    lemma_decimal_digits_read_back,
    lemma_decimal_text_read_back,
    numeral_value,
    push_decimal,
    push_signed_decimal,
    reads_as_signed_decimal,
};
use vstd::prelude::*;
use vstd::utf8::encode_utf8;

verus! {

/// How many records one page of the records listing asks for.
pub const PAGE_LIMIT: usize = 10000;

/// `b` is sent unchanged in a query value: an ASCII letter or digit, or one
/// of `-`, `.`, `_`, `~`.
pub open spec fn is_unreserved(b: u8) -> bool {
    ||| 0x30 <= b <= 0x39
    ||| 0x41 <= b <= 0x5A
    ||| 0x61 <= b <= 0x7A
    ||| b == 0x2D
    ||| b == 0x2E
    ||| b == 0x5F
    ||| b == 0x7E
}

/// How one byte is written in a query value: itself when unreserved, else `%`
/// and its two upper-case hexadecimal digits.
pub open spec fn percent_byte(b: u8) -> Seq<char> {
    if is_unreserved(b) {
        seq![b as char]
    } else {
        seq!['%', crate::text::digit_char((b / 16) as int), crate::text::digit_char((b % 16) as int)]
    }
}

/// The percent-encoding of a byte string, byte by byte.
pub open spec fn percent_encoded(bytes: Seq<u8>) -> Seq<char>
    decreases bytes.len(),
{
    if bytes.len() == 0 {
        Seq::empty()
    } else {
        percent_encoded(bytes.drop_last()) + percent_byte(bytes.last())
    }
}

/// Calls `urlencoding::encode`: every byte of the UTF-8 form of `s` is kept
/// when it is an ASCII letter, digit, `-`, `.`, `_` or `~`, and otherwise
/// written as `%` followed by two upper-case hexadecimal digits.
#[verifier::external_body]
fn url_encode(s: &str) -> (r: String)
    ensures
        r@ == percent_encoded(encode_utf8(s@)),
{
    urlencoding::encode(s).into_owned()
}

/// The address that lists the devices.
pub open spec fn devices_url_text(server: Seq<char>) -> Seq<char> {
    server + "/cf3d/api/v1/devices"@
}

/// The address that lists the boot sessions of `device`.
pub open spec fn boots_url_text(server: Seq<char>, device: Seq<char>) -> Seq<char> {
    server + "/cf3d/api/v1/boots?device="@ + percent_encoded(encode_utf8(device))
}

/// The address of one page of the records of a boot session, starting at
/// sequence number `seqno_min` when there is one.
pub open spec fn records_url_text(
    server: Seq<char>,
    device: Seq<char>,
    boot_id: u64,
    seqno_min: Option<i64>,
) -> Seq<char> {
    let base = server + "/cf3d/api/v1/records?device="@ + percent_encoded(encode_utf8(device))
        + "&boot_id="@ + decimal_digits(boot_id as nat) + "&limit="@ + decimal_digits(
        PAGE_LIMIT as nat,
    );
    match seqno_min {
        Some(min) => base + "&seqno_min="@ + decimal_text(min as int),
        None => base,
    }
}

/// `url` ends in the query fields of a records page: after `head` come
/// `&boot_id=` and the decimal numeral `boot` of `boot_id`, then `&limit=` and
/// the decimal numeral `limit` of the page size, then `tail`, which is empty
/// when no first sequence number is given and otherwise `&seqno_min=`
/// followed by the signed decimal numeral of that number.
pub open spec fn records_url_fields(
    url: Seq<char>,
    boot_id: u64,
    seqno_min: Option<i64>,
    head: Seq<char>,
    boot: Seq<char>,
    limit: Seq<char>,
    tail: Seq<char>,
) -> bool {
    &&& url == head + "&boot_id="@ + boot + "&limit="@ + limit + tail
    &&& is_numeral(boot, 10)
    &&& numeral_value(boot, 10) == boot_id
    &&& is_numeral(limit, 10)
    &&& numeral_value(limit, 10) == PAGE_LIMIT
    &&& match seqno_min {
        None => tail.len() == 0,
        Some(min) => {
            &&& tail == "&seqno_min="@ + tail.skip(11)
            &&& reads_as_signed_decimal(tail.skip(11), min as int)
        },
    }
}

/// The address of a records page asks for boot session `boot_id` by its
/// decimal number, for pages of [`PAGE_LIMIT`] records, and, when given, from
/// sequence number `seqno_min` written in decimal.
pub proof fn lemma_records_url_fields(
    server: Seq<char>,
    device: Seq<char>,
    boot_id: u64,
    seqno_min: Option<i64>,
)
    ensures
        exists|head: Seq<char>, boot: Seq<char>, limit: Seq<char>, tail: Seq<char>|
            #[trigger] records_url_fields(
                records_url_text(server, device, boot_id, seqno_min),
                boot_id,
                seqno_min,
                head,
                boot,
                limit,
                tail,
            ),
{
    let head = server + "/cf3d/api/v1/records?device="@ + percent_encoded(encode_utf8(device));
    let boot = decimal_digits(boot_id as nat);
    let limit = decimal_digits(PAGE_LIMIT as nat);
    lemma_decimal_digits_read_back(boot_id as nat);
    lemma_decimal_digits_read_back(PAGE_LIMIT as nat);
    let url = records_url_text(server, device, boot_id, seqno_min);
    match seqno_min {
        None => {
            let tail = Seq::<char>::empty();
            assert(url =~= head + "&boot_id="@ + boot + "&limit="@ + limit + tail);
            assert(records_url_fields(url, boot_id, seqno_min, head, boot, limit, tail));
        },
        Some(min) => {
            reveal_strlit("&seqno_min=");
            let value = decimal_text(min as int);
            lemma_decimal_text_read_back(min as int);
            let tail = "&seqno_min="@ + value;
            assert(tail.skip(11) =~= value);
            assert(url =~= head + "&boot_id="@ + boot + "&limit="@ + limit + tail);
            assert(records_url_fields(url, boot_id, seqno_min, head, boot, limit, tail));
        },
    }
}

/// The address that lists the devices known to `server`.
pub fn devices_url(server: &str) -> (url: String)
    ensures
        url@ == devices_url_text(server@),
{
    let mut url = server.to_owned();
    url.append("/cf3d/api/v1/devices");
    url
}

/// The address that lists the boot sessions of `device` on `server`.
pub fn boots_url(server: &str, device: &str) -> (url: String)
    ensures
        url@ == boots_url_text(server@, device@),
{
    let mut url = server.to_owned();
    url.append("/cf3d/api/v1/boots?device=");
    let encoded = url_encode(device);
    url.append(encoded.as_str());
    url
}

/// The address of one page of the records of boot session `boot_id` of
/// `device` on `server`, starting at `seqno_min` when there is one.
pub fn records_url(server: &str, device: &str, boot_id: u64, seqno_min: Option<i64>) -> (url:
    String)
    ensures
        url@ == records_url_text(server@, device@, boot_id, seqno_min),
        exists|head: Seq<char>, boot: Seq<char>, limit: Seq<char>, tail: Seq<char>|
            #[trigger] records_url_fields(url@, boot_id, seqno_min, head, boot, limit, tail),
{
    proof {
        lemma_records_url_fields(server@, device@, boot_id, seqno_min);
    }
    let mut url = server.to_owned();
    url.append("/cf3d/api/v1/records?device=");
    let encoded = url_encode(device);
    url.append(encoded.as_str());
    url.append("&boot_id=");
    push_decimal(&mut url, boot_id);
    url.append("&limit=");
    push_decimal(&mut url, PAGE_LIMIT as u64);
    if let Some(min) = seqno_min {
        url.append("&seqno_min=");
        push_signed_decimal(&mut url, min);
    }
    url
}

} // verus!
