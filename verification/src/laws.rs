//! What the operations are for, stated over their calls.
//!
//! `call_ensures(f, args, result)` says that a call of `f` with these arguments can
//! return this result.  A law here takes such calls and relates their results to
//! the arguments, or to one another, in plain terms.
use reqwest::header::HeaderMap;
use url::Url;
use vstd::prelude::*;

use crate::archive::CondaArchiveType;
use crate::assembly::{after_writes, blank, law_chunks_assemble, writes_part};
use crate::chunk::{
    fetch_range, status_display, word_unexpected_status, ChunkStep, PendingBody, PendingWrite,
    RangeRequest,
};
use crate::config::ParallelDownloadConfig;
use crate::download::{
    is_transfer_call_run, lemma_transfer_calls, parallel_download_to_temp, started_ranges,
    DownloadStep, PendingProbe, PendingTemp,
};
use crate::error::ExtractError;
use crate::extract::{
    extract, extract_by_path, extract_conda, extract_conda_with_config, extract_tar_bz2,
    extract_tar_bz2_with_config, extract_with_config, ExtractFailure, ExtractionStep,
    PendingComplete, PendingExtract, PendingFallback, PendingReader,
};
use crate::location::{is_file_url, local_file, url_path, url_text};
use crate::probe::{
    header_contents, header_text, is_visible_ascii, probe_object, size_from_texts,
};
use crate::progress::{stream_error_kind, DownloadProgress, StreamErrorKind};
use crate::ranges::{byte_ranges, law_range_sizes, law_ranges_contiguous, ByteRange};
use crate::reader::{
    get_reader, get_reader_with_config, law_reader_keeps_to_request, law_reader_reports_start_once,
    PendingFile, PendingGet, PendingLocation, PendingParallel, PendingSource, PendingTempFile,
    ReaderRequest, ReaderSource, ReaderStep, Sha256Hash, EXPECTED_SHA256_HEADER,
};
use crate::text::{
    all_digits, ascii_lower, contains, decimal, ends_with, eq_ignore_ascii_case, hex_text,
    is_digit, law_decimal_reads_back, lemma_hex_digits, lower_hex, number, occurs_in, parse_u64,
    same_but_for_case, same_text, stands_at, u64_text, without_plus,
};

verus! {

// ---------------------------------------------------------------------------
// Numbers and other texts
// ---------------------------------------------------------------------------
/// Reading a number goes digit by digit.  Nothing is read from an empty text.  A
/// text that ends in anything but a decimal digit is no number.  The first digit,
/// after a plus sign or not, is worth its distance from `0`; each further digit is
/// added to ten times what was read before, as long as that is a number and the
/// sum fits.
pub proof fn law_reading_numbers(
    shorter: &str,
    longer: &str,
    c: char,
    before: Option<u64>,
    after: Option<u64>,
)
    requires
        call_ensures(parse_u64, (shorter,), before),
        call_ensures(parse_u64, (longer,), after),
        longer@ == shorter@.push(c),
    ensures
        shorter@.len() == 0 ==> before is None,
        !('0' <= c <= '9') ==> after is None,
        '0' <= c <= '9' && (shorter@.len() == 0 || shorter@ == seq!['+']) ==> after is Some
            && after->0 == c as int - '0' as int,
        '0' <= c <= '9' && shorter@.len() > 0 && shorter@ != seq!['+'] ==> (after is Some <==> before
            is Some && before->0 * 10 + (c as int - '0' as int) <= u64::MAX),
        '0' <= c <= '9' && shorter@.len() > 0 && shorter@ != seq!['+'] && after is Some ==> after->0
            == before->0 * 10 + (c as int - '0' as int),
{
    let short = without_plus(shorter@);
    let long = without_plus(longer@);
    if longer@.len() == 1 && c == '+' {
        assert(longer@[0] == '+');
        assert(long.len() == 0);
    } else {
        if shorter@.len() > 0 {
            assert(longer@[0] == shorter@[0]);
        }
        assert(long =~= short.push(c));
        assert(long.last() == c);
        assert(long.drop_last() =~= short);
        assert(number(long) == number(short) * 10 + (c as nat - '0' as nat) as nat);
        assert(long[long.len() - 1] == c);
        if all_digits(long) {
            assert forall|i: int| 0 <= i < short.len() implies is_digit(#[trigger] short[i]) by {
                assert(long[i] == short[i]);
            }
        }
        if all_digits(short) && is_digit(c) {
            assert forall|i: int| 0 <= i < long.len() implies is_digit(#[trigger] long[i]) by {
                if i < short.len() {
                    assert(long[i] == short[i]);
                }
            }
        }
        if shorter@.len() == 0 || shorter@ == seq!['+'] {
            assert(short =~= Seq::empty());
            assert(number(short) == 0);
            assert(all_digits(short));
        } else {
            assert(short.len() > 0) by {
                if short.len() == 0 {
                    assert(shorter@ =~= seq!['+']);
                }
            }
        }
    }
}

/// A number below ten is spelled with the digit that lies so far from `0`, any
/// other with the spelling of its tens and then that of its units.
pub proof fn law_spelling_numbers(n: u64, text: String, tens: String)
    requires
        call_ensures(u64_text, (n,), text),
        call_ensures(u64_text, ((n / 10) as u64,), tens),
    ensures
        n < 10 ==> text@.len() == 1,
        n >= 10 ==> text@.len() == tens@.len() + 1 && text@.drop_last() == tens@,
        text@.last() as int == '0' as int + n % 10,
{
    if n >= 10 {
        assert(text@.drop_last() =~= tens@);
    }
}

/// A number that was spelled is read back.
pub proof fn law_numbers_read_back(n: u64, spelled: String, text: &str, read: Option<u64>)
    requires
        call_ensures(u64_text, (n,), spelled),
        text@ == spelled@,
        call_ensures(parse_u64, (text,), read),
    ensures
        read == Some(n),
        forall|i: int| 0 <= i < text@.len() ==> '0' <= #[trigger] text@[i] <= '9',
{
    law_decimal_reads_back(n);
    assert forall|i: int| 0 <= i < text@.len() implies '0' <= #[trigger] text@[i] <= '9' by {
        assert(is_digit(text@[i]));
    }
}

/// `c` is a digit of base sixteen, in lower case.
pub open spec fn is_hex_digit(c: char) -> bool {
    '0' <= c <= '9' || 'a' <= c <= 'f'
}

/// The value of a digit of base sixteen.
pub open spec fn hex_value(c: char) -> int {
    if '0' <= c <= '9' {
        c as int - '0' as int
    } else {
        c as int - 'a' as int + 10
    }
}

/// `text` is `bytes` in base sixteen: two lower-case digits for each byte, and
/// read as a number each pair gives the byte back.
pub open spec fn reads_as_hex(text: Seq<char>, bytes: Seq<u8>) -> bool {
    &&& text.len() == 2 * bytes.len()
    &&& forall|i: int| 0 <= i < text.len() ==> is_hex_digit(#[trigger] text[i])
    &&& forall|i: int|
        0 <= i < bytes.len() ==> (#[trigger] bytes[i]) == 16 * hex_value(text[2 * i]) + hex_value(
            text[2 * i + 1],
        )
}

proof fn lemma_reads_as_hex(bytes: Seq<u8>)
    ensures
        reads_as_hex(lower_hex(bytes), bytes),
{
    let text = lower_hex(bytes);
    assert forall|i: int| 0 <= i < text.len() implies is_hex_digit(#[trigger] text[i]) by {
        let k = i / 2;
        lemma_hex_digits(bytes, k);
        assert(i == 2 * k || i == 2 * k + 1);
        assert(0 <= bytes[k] as int / 16 < 16 && 0 <= bytes[k] as int % 16 < 16);
    }
    assert forall|i: int| 0 <= i < bytes.len() implies (#[trigger] bytes[i]) == 16 * hex_value(
        text[2 * i],
    ) + hex_value(text[2 * i + 1]) by {
        lemma_hex_digits(bytes, i);
        assert(0 <= bytes[i] as int / 16 < 16 && 0 <= bytes[i] as int % 16 < 16);
        assert(bytes[i] == 16 * (bytes[i] as int / 16) + bytes[i] as int % 16);
    }
}

/// Bytes that are spelled in hexadecimal can be read off the text.
pub proof fn law_hex_reads_back(bytes: &[u8], text: String)
    requires
        call_ensures(hex_text, (bytes,), text),
    ensures
        reads_as_hex(text@, bytes@),
{
    lemma_reads_as_hex(bytes@);
}

/// A text contains another exactly if it is that other one with something before
/// and something after it.
pub proof fn law_contains(text: &str, needle: &str, res: bool)
    requires
        call_ensures(contains, (text, needle), res),
    ensures
        res <==> exists|before: Seq<char>, after: Seq<char>|
            text@ == #[trigger] (before + needle@ + after),
{
    if occurs_in(text@, needle@) {
        let at = choose|at: int| stands_at(text@, needle@, at);
        let before = text@.take(at);
        let after = text@.skip(at + needle@.len());
        assert(text@ =~= before + needle@ + after);
    }
    assert forall|before: Seq<char>, after: Seq<char>|
        text@ == #[trigger] (before + needle@ + after) implies occurs_in(text@, needle@) by {
        assert(text@.subrange(before.len() as int, (before.len() + needle@.len()) as int) =~= needle@);
        assert(stands_at(text@, needle@, before.len() as int));
    }
}

/// A text ends with another exactly if it is that other one with something before
/// it.
pub proof fn law_ends_with(text: &str, suffix: &str, res: bool)
    requires
        call_ensures(ends_with, (text, suffix), res),
    ensures
        res <==> exists|before: Seq<char>| text@ == #[trigger] (before + suffix@),
{
    lemma_suffix(text@, suffix@);
}

proof fn lemma_suffix(text: Seq<char>, suffix: Seq<char>)
    ensures
        suffix.is_suffix_of(text) <==> exists|before: Seq<char>|
            text == #[trigger] (before + suffix),
{
    if suffix.is_suffix_of(text) {
        let before = text.take(text.len() - suffix.len());
        assert(text =~= before + suffix);
    }
    assert forall|before: Seq<char>| text == #[trigger] (before + suffix) implies
        suffix.is_suffix_of(text) by {
        assert(text.subrange(text.len() - suffix.len(), text.len() as int) =~= suffix);
    }
}

/// Texts are the same exactly if their characters are.
pub proof fn law_same_text(a: &str, b: &str, res: bool)
    requires
        call_ensures(same_text, (a, b), res),
    ensures
        res <==> a@ == b@,
{
}

/// Two characters are the same, or one is an upper-case ASCII letter and the other
/// the lower-case one.
pub open spec fn same_letter(a: char, b: char) -> bool {
    ||| a == b
    ||| 'A' <= a <= 'Z' && b as int == a as int + 32
    ||| 'A' <= b <= 'Z' && a as int == b as int + 32
}

proof fn lemma_same_but_for_case(a: Seq<char>, b: Seq<char>)
    ensures
        same_but_for_case(a, b) <==> a.len() == b.len() && forall|i: int|
            0 <= i < a.len() ==> same_letter(#[trigger] a[i], b[i]),
{
    let a_lower = a.map_values(|c: char| ascii_lower(c));
    let b_lower = b.map_values(|c: char| ascii_lower(c));
    if a_lower == b_lower {
        assert(a.len() == a_lower.len() && b.len() == b_lower.len());
        assert forall|i: int| 0 <= i < a.len() implies same_letter(#[trigger] a[i], b[i]) by {
            assert(a_lower[i] == b_lower[i]);
        }
    }
    if a.len() == b.len() && forall|i: int|
        0 <= i < a.len() ==> same_letter(#[trigger] a[i], b[i]) {
        assert forall|i: int| 0 <= i < a.len() implies a_lower[i] == b_lower[i] by {
            assert(same_letter(a[i], b[i]));
        }
        assert(a_lower =~= b_lower);
    }
}

/// Texts are the same up to case exactly if they are as long, and character by
/// character the same letter.
pub proof fn law_case_is_left_aside(a: &str, b: &str, res: bool)
    requires
        call_ensures(eq_ignore_ascii_case, (a, b), res),
    ensures
        res <==> a@.len() == b@.len() && forall|i: int|
            0 <= i < a@.len() ==> same_letter(#[trigger] a@[i], b@[i]),
{
    lemma_same_but_for_case(a@, b@);
}

// ---------------------------------------------------------------------------
// Configuration and ranges
// ---------------------------------------------------------------------------
/// A configuration is valid exactly if no field is zero and a chunk has at most
/// 256 MiB.
pub proof fn law_validity(config: &ParallelDownloadConfig, res: bool)
    requires
        call_ensures(ParallelDownloadConfig::is_valid, (config,), res),
    ensures
        res <==> 1 <= config.chunk_size <= 268435456 && config.concurrency >= 1
            && config.min_size_for_parallel >= 1,
{
}

/// The ranges of an object start at its first byte, follow one another without a
/// gap and end at its last byte; each has the size of a chunk, only the last may be
/// shorter.
pub proof fn law_ranges_tile_the_object(total: u64, chunk_size: u64, ranges: Vec<ByteRange>)
    requires
        chunk_size > 0,
        call_ensures(byte_ranges, (total, chunk_size), ranges),
    ensures
        ranges@.len() == 0 <==> total == 0,
        total > 0 ==> ranges@[0].start == 0 && ranges@[ranges@.len() - 1].end == total - 1,
        forall|i: int|
            0 <= i < ranges@.len() ==> 0 <= (#[trigger] ranges@[i]).end - ranges@[i].start
                < chunk_size,
        forall|i: int|
            0 <= i < ranges@.len() - 1 ==> (#[trigger] ranges@[i]).end - ranges@[i].start + 1
                == chunk_size && ranges@[i + 1].start == ranges@[i].end + 1,
{
    law_range_sizes(total, chunk_size);
    law_ranges_contiguous(total, chunk_size);
    assert forall|i: int| 0 <= i < ranges@.len() implies 0 <= (#[trigger] ranges@[i]).end
        - ranges@[i].start < chunk_size by {
        assert(0 < ranges@[i].size() <= chunk_size);
    }
    assert forall|i: int| 0 <= i < ranges@.len() - 1 implies (#[trigger] ranges@[i]).end
        - ranges@[i].start + 1 == chunk_size && ranges@[i + 1].start == ranges@[i].end + 1 by {
        assert(ranges@[i].size() == chunk_size);
    }
}

// ---------------------------------------------------------------------------
// What a server says about an object
// ---------------------------------------------------------------------------
/// `text` is the word `bytes`, in whatever case.
pub open spec fn names_bytes(text: Seq<char>) -> bool {
    &&& text.len() == 5
    &&& text[0] == 'b' || text[0] == 'B'
    &&& text[1] == 'y' || text[1] == 'Y'
    &&& text[2] == 't' || text[2] == 'T'
    &&& text[3] == 'e' || text[3] == 'E'
    &&& text[4] == 's' || text[4] == 'S'
}

proof fn lemma_names_bytes(text: Seq<char>)
    ensures
        same_but_for_case(text, "bytes"@) <==> names_bytes(text),
{
    reveal_strlit("bytes");
    lemma_same_but_for_case(text, "bytes"@);
    if text.len() == 5 {
        let word = "bytes"@;
        if forall|i: int| 0 <= i < text.len() ==> same_letter(#[trigger] text[i], word[i]) {
            assert(same_letter(text[0], word[0]) && same_letter(text[1], word[1]));
            assert(same_letter(text[2], word[2]) && same_letter(text[3], word[3]));
            assert(same_letter(text[4], word[4]));
        }
        if names_bytes(text) {
            assert forall|i: int| 0 <= i < text.len() implies same_letter(
                #[trigger] text[i],
                word[i],
            ) by {
                assert(i == 0 || i == 1 || i == 2 || i == 3 || i == 4);
            }
        }
    }
}

/// The size of an object is the number that the content length spells, where the
/// unit of the ranges is `bytes`, and is unknown where it is another.  In
/// particular, for every number `n` whose spelling is the content length, the size
/// is `n` and nothing else.
pub proof fn law_size_is_the_content_length(
    unit: &str,
    length: &str,
    read: Option<u64>,
    n: u64,
    spelled: String,
    size: Option<u64>,
)
    requires
        call_ensures(size_from_texts, (Some(unit), Some(length)), size),
        call_ensures(parse_u64, (length,), read),
        call_ensures(u64_text, (n,), spelled),
    ensures
        names_bytes(unit@) ==> size == read,
        names_bytes(unit@) && length@ == spelled@ ==> size == Some(n),
        !names_bytes(unit@) ==> size is None,
{
    lemma_names_bytes(unit@);
    law_decimal_reads_back(n);
}

/// Without either header no size is known.
pub proof fn law_size_takes_both_headers(
    unit: Option<&str>,
    length: Option<&str>,
    size: Option<u64>,
)
    requires
        call_ensures(size_from_texts, (unit, length), size),
        unit is None || length is None,
    ensures
        size is None,
{
}

/// `text` is what the first value under a header name spells: `None` if there is
/// no value, or if one of its bytes is neither a tab nor printable ASCII.
pub open spec fn header_spells(headers: HeaderMap, name: Seq<char>, text: Option<&str>) -> bool {
    let contents = header_contents(headers);
    match text {
        Some(text) => {
            let bytes = contents[name][0];
            &&& contents.contains_key(name)
            &&& bytes.len() == text@.len()
            &&& forall|i: int|
                0 <= i < bytes.len() ==> (32 <= #[trigger] bytes[i] < 127 || bytes[i] == 9)
                    && text@[i] as int == bytes[i] as int
        },
        None => contents.contains_key(name) ==> exists|i: int|
            0 <= i < contents[name][0].len() && !(32 <= #[trigger] contents[name][0][i] < 127
                || contents[name][0][i] == 9),
    }
}

proof fn lemma_header_spells(headers: HeaderMap, name: Seq<char>, text: Option<&str>)
    requires
        header_spells(headers, name, text),
    ensures
        header_text(headers, name) == match text {
            Some(text) => Some(text@),
            None => None,
        },
{
    let bytes = header_contents(headers)[name][0];
    match text {
        Some(text) => {
            assert forall|i: int| 0 <= i < bytes.len() implies is_visible_ascii(
                #[trigger] bytes[i],
            ) by {}
            assert(bytes.map_values(|b: u8| b as char) =~= text@);
        },
        None => {
            if header_contents(headers).contains_key(name) {
                let i = choose|i: int|
                    0 <= i < bytes.len() && !(32 <= #[trigger] bytes[i] < 127 || bytes[i] == 9);
                assert(!is_visible_ascii(bytes[i]));
            }
        },
    }
}

/// What a probe reads is the size that the texts of the two headers give.
pub proof fn law_probe_reads_the_headers(
    headers: &HeaderMap,
    unit: Option<&str>,
    length: Option<&str>,
    size: Option<u64>,
    probed: Option<u64>,
)
    requires
        header_spells(*headers, "accept-ranges"@, unit),
        header_spells(*headers, "content-length"@, length),
        call_ensures(size_from_texts, (unit, length), size),
        call_ensures(probe_object, (headers,), probed),
    ensures
        probed == size,
{
    lemma_header_spells(*headers, "accept-ranges"@, unit);
    lemma_header_spells(*headers, "content-length"@, length);
}

/// The first value under a header name holds exactly these characters.
pub open spec fn header_is(headers: HeaderMap, name: Seq<char>, text: Seq<char>) -> bool {
    let contents = header_contents(headers);
    &&& contents.contains_key(name)
    &&& contents[name][0].len() == text.len()
    &&& forall|i: int|
        0 <= i < text.len() ==> (#[trigger] contents[name][0][i]) as int == text[i] as int
}

/// A server that offers ranges of `bytes` and states the content length `n` is
/// known to serve an object of `n` bytes.
pub proof fn law_probe_finds_the_content_length(
    headers: &HeaderMap,
    unit: Seq<char>,
    n: u64,
    spelled: String,
    probed: Option<u64>,
)
    requires
        names_bytes(unit),
        header_is(*headers, "accept-ranges"@, unit),
        call_ensures(u64_text, (n,), spelled),
        header_is(*headers, "content-length"@, spelled@),
        call_ensures(probe_object, (headers,), probed),
    ensures
        probed == Some(n),
{
    law_decimal_reads_back(n);
    let digits = spelled@;
    assert forall|i: int| 0 <= i < digits.len() implies 48 <= (#[trigger] digits[i]) as int
        <= 57 by {
        assert(is_digit(digits[i]));
    }
    lemma_header_is(*headers, "content-length"@, digits);
    lemma_header_is(*headers, "accept-ranges"@, unit);
    lemma_names_bytes(unit);
}

proof fn lemma_header_is(headers: HeaderMap, name: Seq<char>, text: Seq<char>)
    requires
        header_is(headers, name, text),
        forall|i: int| 0 <= i < text.len() ==> 32 <= (#[trigger] text[i]) as int && (
        text[i] as int) < 127,
    ensures
        header_text(headers, name) == Some(text),
{
    let bytes = header_contents(headers)[name][0];
    assert forall|i: int| 0 <= i < bytes.len() implies is_visible_ascii(#[trigger] bytes[i]) by {
        assert(32 <= text[i] as int);
    }
    assert(bytes.map_values(|b: u8| b as char) =~= text);
}

// ---------------------------------------------------------------------------
// Where a package lies
// ---------------------------------------------------------------------------
/// The text of a URL begins with the word `file` and a colon.
pub open spec fn begins_with_file(text: Seq<char>) -> bool {
    &&& text.len() >= 5
    &&& text[0] == 'f' && text[1] == 'i' && text[2] == 'l' && text[3] == 'e' && text[4] == ':'
}

proof fn lemma_begins_with_file(text: Seq<char>)
    ensures
        crate::location::names_file(text) <==> begins_with_file(text),
{
    reveal_strlit("file:");
    let word = "file:"@;
    if word.is_prefix_of(text) {
        assert(word == text.subrange(0, 5));
        assert(text.subrange(0, 5)[0] == word[0] && text.subrange(0, 5)[1] == word[1]);
        assert(text.subrange(0, 5)[2] == word[2] && text.subrange(0, 5)[3] == word[3]);
        assert(text.subrange(0, 5)[4] == word[4]);
    }
    if begins_with_file(text) {
        assert(word =~= text.subrange(0, 5));
    }
}

/// A URL is a file URL exactly if its text begins with `file:`.
pub proof fn law_file_urls(url: &Url, res: bool)
    requires
        call_ensures(is_file_url, (url,), res),
    ensures
        res <==> begins_with_file(url_text(*url)),
{
    lemma_begins_with_file(url_text(*url));
}

/// The file of a file URL is the one that `Url::to_file_path` answers with: there
/// is none only if that call fails.  Any other URL has no file.
pub proof fn law_local_file(url: &Url, res: Option<std::path::PathBuf>)
    requires
        call_ensures(local_file, (url,), res),
    ensures
        !begins_with_file(url_text(*url)) ==> res is None,
        begins_with_file(url_text(*url)) && res is Some ==> call_ensures(
            Url::to_file_path,
            (url,),
            Ok(res->0),
        ),
        begins_with_file(url_text(*url)) && res is None ==> call_ensures(
            Url::to_file_path,
            (url,),
            Err(()),
        ),
{
    lemma_begins_with_file(url_text(*url));
}

/// A path ends with this text.
pub open spec fn ends_in(path: Seq<char>, ending: Seq<char>) -> bool {
    exists|stem: Seq<char>| path == #[trigger] (stem + ending)
}

/// No path ends like both kinds of archive.
pub(crate) proof fn lemma_endings(path: Seq<char>)
    ensures
        ".conda"@.is_suffix_of(path) <==> ends_in(path, ".conda"@),
        ".tar.bz2"@.is_suffix_of(path) <==> ends_in(path, ".tar.bz2"@),
        !(ends_in(path, ".conda"@) && ends_in(path, ".tar.bz2"@)),
{
    reveal_strlit(".conda");
    reveal_strlit(".tar.bz2");
    lemma_suffix(path, ".conda"@);
    lemma_suffix(path, ".tar.bz2"@);
    if ends_in(path, ".conda"@) && ends_in(path, ".tar.bz2"@) {
        let a = choose|stem: Seq<char>| path == #[trigger] (stem + ".conda"@);
        let b = choose|stem: Seq<char>| path == #[trigger] (stem + ".tar.bz2"@);
        assert(path[path.len() - 1] == (a + ".conda"@)[path.len() - 1]);
        assert(path[path.len() - 1] == 'a');
        assert(path[path.len() - 1] == (b + ".tar.bz2"@)[path.len() - 1]);
        assert(path[path.len() - 1] == '2');
    }
}

/// A path that ends in `.conda` stands for that kind of archive, one that ends in
/// `.tar.bz2` for that kind, and any other for none.
pub proof fn law_archive_types(path: &str, res: Option<CondaArchiveType>)
    requires
        call_ensures(CondaArchiveType::try_from, (path,), res),
    ensures
        res == Some(CondaArchiveType::Conda) <==> ends_in(path@, ".conda"@),
        res == Some(CondaArchiveType::TarBz2) <==> ends_in(path@, ".tar.bz2"@),
        res is None <==> !ends_in(path@, ".conda"@) && !ends_in(path@, ".tar.bz2"@),
{
    lemma_endings(path@);
}

// ---------------------------------------------------------------------------
// One range
// ---------------------------------------------------------------------------
/// The `Range` header of a request reads `bytes=`, the first byte, a hyphen and the
/// last byte, both spelled as numbers are.
pub proof fn law_range_header_spells_the_range(
    request: &RangeRequest,
    value: String,
    first: String,
    last: String,
)
    requires
        call_ensures(RangeRequest::header_value, (request,), value),
        call_ensures(u64_text, (request.range.start,), first),
        call_ensures(u64_text, (request.range.end,), last),
    ensures
        value@ == seq!['b', 'y', 't', 'e', 's', '='] + first@ + seq!['-'] + last@,
{
    reveal_strlit("bytes=");
    reveal_strlit("-");
    assert("bytes="@ =~= seq!['b', 'y', 't', 'e', 's', '=']);
    assert("-"@ =~= seq!['-']);
}

/// The message about an unexpected status ends with the status.
pub proof fn law_status_message(status: &str, message: String)
    requires
        call_ensures(word_unexpected_status, (status,), message),
    ensures
        message@ == "expected 206 Partial Content for range request, got "@ + status@,
{
}

/// The transfer of a range begins with a request for that range.
pub proof fn law_range_is_requested<E>(range: ByteRange, step: ChunkStep<E>)
    requires
        call_ensures(fetch_range::<E>, (range,), step),
    ensures
        step is SendRange,
        step->SendRange_0.range == range,
{
}

/// A body is read exactly if the request was answered with status 206, whatever
/// the range; a request that failed passes its failure on; any other status ends
/// the transfer with the message about it.
pub proof fn law_only_partial_content_is_read<E>(
    request: RangeRequest,
    outcome: Result<u16, E>,
    next: ChunkStep<E>,
)
    requires
        call_ensures(RangeRequest::resume::<E>, (request, outcome), next),
    ensures
        next is ReadBody <==> outcome is Ok && outcome->Ok_0 == 206,
        next is ReadBody ==> next->ReadBody_0.range == request.range,
        next is ReadBody || next is Finished,
        next is Finished ==> next->Finished_0 is Err,
        outcome is Err ==> next->Finished_0->Err_0 == ExtractError::Outside(outcome->Err_0),
        outcome is Ok && outcome->Ok_0 != 206 ==> next->Finished_0->Err_0 is UnexpectedStatus,
        outcome is Ok && outcome->Ok_0 != 206 ==> next->Finished_0->Err_0->UnexpectedStatus_0@
            == "expected 206 Partial Content for range request, got "@ + status_display(
            outcome->Ok_0,
        ),
{
}

/// Every status code that a response can have is taken, and so is every failure.
pub proof fn law_every_answer_is_taken<E>(request: RangeRequest, outcome: Result<u16, E>)
    requires
        outcome is Ok ==> 100 <= outcome->Ok_0 <= 999,
    ensures
        call_requires(RangeRequest::resume::<E>, (request, outcome)),
{
}

/// A body that was read is written unchanged where its range starts; one that
/// could not be read passes its failure on.
pub proof fn law_body_is_written_where_the_range_starts<E>(
    pending: PendingBody,
    outcome: Result<Vec<u8>, E>,
    next: ChunkStep<E>,
)
    requires
        call_ensures(PendingBody::resume::<E>, (pending, outcome), next),
    ensures
        next is Write <==> outcome is Ok,
        next is Write ==> next->Write_0.offset == pending.range.start && next->Write_0.bytes@
            == outcome->Ok_0@,
        outcome is Err ==> next is Finished && next->Finished_0 is Err && next->Finished_0->Err_0
            == ExtractError::Outside(outcome->Err_0),
{
}

/// A transfer succeeds exactly if its write does, with the number of bytes; a write
/// that failed passes its failure on.
pub proof fn law_transfer_counts_its_bytes<E>(
    pending: PendingWrite,
    outcome: Result<(), E>,
    next: ChunkStep<E>,
)
    requires
        call_ensures(PendingWrite::resume::<E>, (pending, outcome), next),
    ensures
        next is Finished,
        next->Finished_0 is Ok <==> outcome is Ok,
        outcome is Ok ==> next->Finished_0->Ok_0 == pending.bytes@.len(),
        outcome is Err ==> next->Finished_0->Err_0 == ExtractError::Outside(outcome->Err_0),
{
    assert(pending.bytes.len() as u64 == pending.bytes@.len());
}

// ---------------------------------------------------------------------------
// Progress
// ---------------------------------------------------------------------------
/// A body begins with nothing received, and with the size that was stated.
pub proof fn law_progress_begins_at_zero(total: Option<u64>, progress: DownloadProgress)
    requires
        call_ensures(DownloadProgress::new, (total,), progress),
    ensures
        progress.received == 0,
        progress.total == total,
{
}

/// A failure of the body is an interruption, whether or not it is one of decoding
/// too; a failure of decoding alone is invalid data; and there is no third kind but
/// `Other`.
pub proof fn law_stream_errors(is_body: bool, is_decode: bool, kind: StreamErrorKind)
    requires
        call_ensures(stream_error_kind, (is_body, is_decode), kind),
    ensures
        is_body <==> kind is Interrupted,
        !is_body && is_decode <==> kind is InvalidData,
{
}

/// With every frame the number of received bytes grows by the size of the frame,
/// the stated size stays, and both are what is reported.
pub proof fn law_frames_are_counted(
    progress: &mut DownloadProgress,
    frame_len: usize,
    report: (u64, Option<u64>),
)
    requires
        call_ensures(DownloadProgress::on_frame, (progress, frame_len), report),
    ensures
        final(progress).received == old(progress).received + frame_len,
        final(progress).total == old(progress).total,
        report == (final(progress).received, final(progress).total),
{
}

// ---------------------------------------------------------------------------
// The download as a whole
// ---------------------------------------------------------------------------
/// By default eight requests of 8 MiB run at a time, for objects from 8 MiB on.
pub proof fn law_default(config: ParallelDownloadConfig)
    requires
        call_ensures(ParallelDownloadConfig::default, (), config),
    ensures
        config.min_size_for_parallel == 8388608,
        config.chunk_size == 8388608,
        config.concurrency == 8,
{
}

/// A download begins with a probe, for the configuration it was given, exactly if
/// no field is zero and a chunk has at most 256 MiB; otherwise it is over, without a
/// file and without a failure.
pub proof fn law_download_begins<T, E>(config: &ParallelDownloadConfig, step: DownloadStep<T, E>)
    requires
        call_ensures(parallel_download_to_temp::<T, E>, (config,), step),
    ensures
        step is Probe <==> 1 <= config.chunk_size <= 268435456 && config.concurrency >= 1
            && config.min_size_for_parallel >= 1,
        step is Probe ==> step->Probe_0.config == *config,
        !(step is Probe) ==> step == DownloadStep::<T, E>::Finished(Ok(None)),
{
}

/// After the probe a file is created exactly if the size is known and reaches the
/// threshold, with just that size; otherwise the download is over, without a file
/// and without a failure.
pub proof fn law_download_engages<T, E>(
    pending: PendingProbe,
    total: Option<u64>,
    step: DownloadStep<T, E>,
    size: u64,
)
    requires
        1 <= pending.config.chunk_size <= 268435456,
        pending.config.concurrency >= 1,
        pending.config.min_size_for_parallel >= 1,
        call_ensures(PendingProbe::resume_with_size::<T, E>, (pending, total), step),
        step is CreateTemp ==> call_ensures(PendingTemp::total, (&step->CreateTemp_0,), size),
    ensures
        step is CreateTemp <==> total is Some && total->0 >= pending.config.min_size_for_parallel,
        step is CreateTemp ==> size == total->0,
        !(step is CreateTemp) ==> step == DownloadStep::<T, E>::Finished(Ok(None)),
{
}

/// The headers count for nothing but the size that a probe reads from them.
pub proof fn law_headers_give_the_size<T, E>(
    pending: PendingProbe,
    headers: &HeaderMap,
    total: Option<u64>,
    sized: DownloadStep<T, E>,
    step: DownloadStep<T, E>,
)
    requires
        call_ensures(probe_object, (headers,), total),
        call_ensures(PendingProbe::resume_with_size::<T, E>, (pending, total), sized),
        call_ensures(PendingProbe::resume::<T, E>, (pending, Ok(headers)), step),
    ensures
        sized is CreateTemp <==> step is CreateTemp,
        step is CreateTemp ==> {
            &&& step->CreateTemp_0.spec_total() == sized->CreateTemp_0.spec_total()
            &&& step->CreateTemp_0.spec_ranges() == sized->CreateTemp_0.spec_ranges()
            &&& step->CreateTemp_0.spec_concurrency() == sized->CreateTemp_0.spec_concurrency()
        },
        !(step is CreateTemp) ==> step == sized,
{
}

/// A probe that failed, and a file that could not be created, end the download with
/// that failure.
pub proof fn law_download_fails<T, E>(
    probe: PendingProbe,
    temp: PendingTemp,
    e: E,
    probed: DownloadStep<T, E>,
    created: DownloadStep<T, E>,
)
    requires
        call_ensures(PendingProbe::resume::<T, E>, (probe, Err(e)), probed),
        call_ensures(PendingTemp::resume::<T, E>, (temp, Err(e)), created),
    ensures
        probed == DownloadStep::<T, E>::Finished(Err(ExtractError::Outside(e))),
        created == DownloadStep::<T, E>::Finished(Err(ExtractError::Outside(e))),
{
}

/// `read` is the step at which a range of an object is to be written, after its
/// request was answered with status 206 and its part of the object.
pub open spec fn part_is_fetched<E>(
    body: Seq<u8>,
    range: ByteRange,
    sent: ChunkStep<E>,
    answered: ChunkStep<E>,
    bytes: Vec<u8>,
    read: ChunkStep<E>,
) -> bool {
    &&& call_ensures(fetch_range::<E>, (range,), sent)
    &&& call_ensures(RangeRequest::resume::<E>, (sent->SendRange_0, Ok(206)), answered)
    &&& bytes@ == body.subrange(range.start as int, range.end + 1)
    &&& call_ensures(PendingBody::resume::<E>, (answered->ReadBody_0, Ok(bytes)), read)
}

/// A download yields the object, from the headers to the file.  Let the server
/// offer ranges of `bytes` and spell the size of the object as its content length,
/// and let the size reach the threshold of a valid configuration.  Then a file of
/// just that size is created.  Let every range that was started be answered with
/// its part of the object, and be written where the transfers say, in whatever
/// order.  Then at the end the file holds exactly the object; and it is handed out
/// if every transfer succeeded.
pub proof fn law_download_from_the_headers<T, E>(
    config: &ParallelDownloadConfig,
    headers: &HeaderMap,
    unit: Seq<char>,
    length: String,
    body: Seq<u8>,
    begun: DownloadStep<T, E>,
    created: DownloadStep<T, E>,
    size: u64,
    temp: T,
    results: Seq<Result<u64, ExtractError<E>>>,
    steps: Seq<DownloadStep<T, E>>,
    order: Seq<int>,
    sent: Seq<ChunkStep<E>>,
    answered: Seq<ChunkStep<E>>,
    parts: Seq<Vec<u8>>,
    read: Seq<ChunkStep<E>>,
)
    requires
        1 <= config.chunk_size <= 268435456,
        config.concurrency >= 1,
        1 <= config.min_size_for_parallel <= body.len() <= u64::MAX,
        call_ensures(parallel_download_to_temp::<T, E>, (config,), begun),
        names_bytes(unit),
        header_is(*headers, "accept-ranges"@, unit),
        call_ensures(u64_text, (body.len() as u64,), length),
        header_is(*headers, "content-length"@, length@),
        call_ensures(PendingProbe::resume::<T, E>, (begun->Probe_0, Ok(headers)), created),
        call_ensures(PendingTemp::total, (&created->CreateTemp_0,), size),
        call_ensures(PendingTemp::resume::<T, E>, (created->CreateTemp_0, Ok(temp)), steps[0]),
        is_transfer_call_run(results, steps),
        steps.last() is Finished,
        forall|k: int|
            0 <= k < order.len() ==> 0 <= #[trigger] order[k] < started_ranges(steps).len(),
        forall|i: int| 0 <= i < started_ranges(steps).len() ==> #[trigger] order.contains(i),
        read.len() == order.len(),
        forall|k: int|
            0 <= k < order.len() ==> part_is_fetched(
                body,
                started_ranges(steps)[order[k]],
                sent[k],
                answered[k],
                parts[k],
                #[trigger] read[k],
            ),
    ensures
        begun is Probe,
        created is CreateTemp,
        size == body.len(),
        forall|k: int| 0 <= k < order.len() ==> (#[trigger] read[k]) is Write,
        after_writes(
            blank(size as nat),
            read.map_values(|step: ChunkStep<E>| step->Write_0),
        ) == body,
        (forall|k: int| 0 <= k < results.len() ==> (#[trigger] results[k]) is Ok)
            ==> steps.last()->Finished_0 == Ok::<Option<T>, ExtractError<E>>(Some(temp)),
{
    let n = body.len() as u64;
    law_decimal_reads_back(n);
    let digits = length@;
    assert forall|i: int| 0 <= i < digits.len() implies 48 <= (#[trigger] digits[i]) as int
        <= 57 by {
        assert(is_digit(digits[i]));
    }
    lemma_header_is(*headers, "content-length"@, digits);
    lemma_header_is(*headers, "accept-ranges"@, unit);
    lemma_names_bytes(unit);
    let ranges = created->CreateTemp_0.spec_ranges();
    let last = steps.len() - 1;
    lemma_transfer_calls(*config, n, created, ranges, temp, results, steps, last, &temp);
    assert(steps.take(steps.len() as int) =~= steps);
    let writes = read.map_values(|step: ChunkStep<E>| step->Write_0);
    assert forall|k: int| 0 <= k < order.len() implies writes_part(
        #[trigger] writes[k],
        body,
        ranges[order[k]],
    ) && read[k] is Write by {
        let range = ranges[order[k]];
        assert(part_is_fetched(body, range, sent[k], answered[k], parts[k], read[k]));
        assert(read[k] == (PendingBody { range }).after::<E>(Ok(parts[k])));
    }
    assert forall|k: int| 0 <= k < order.len() implies (#[trigger] read[k]) is Write by {
        assert(writes_part(writes[k], body, ranges[order[k]]));
    }
    law_chunks_assemble(body, config.chunk_size, order, writes);
}

// ---------------------------------------------------------------------------
// Opening a package
// ---------------------------------------------------------------------------
/// How a package is read is what the caller asked for: the digest and the reporter
/// are the caller's, the package is a file exactly if its URL begins with `file:`,
/// and the configuration is there exactly if the caller gave one, unchanged.
pub proof fn law_requests_are_the_callers(
    url: &Url,
    expected_sha256: Option<Sha256Hash>,
    has_reporter: bool,
    config: &ParallelDownloadConfig,
    plain: ReaderRequest,
    split: ReaderRequest,
)
    requires
        call_ensures(get_reader, (url, expected_sha256, has_reporter), plain),
        call_ensures(get_reader_with_config, (url, expected_sha256, has_reporter, config), split),
    ensures
        plain.is_file <==> begins_with_file(url_text(*url)),
        split.is_file == plain.is_file,
        plain.expected_sha256 == expected_sha256 && split.expected_sha256 == expected_sha256,
        plain.has_reporter == has_reporter && split.has_reporter == has_reporter,
        plain.config is None,
        split.config == Some(*config),
{
    lemma_begins_with_file(url_text(*url));
}

/// The first work on a package.  A reporter, if there is one, is told first, and
/// then follows what follows without a reporter.  Without one, a file is located; a
/// download is split exactly if the package is no file, a configuration was given
/// and no digest is expected; and in every other case the object is requested, with
/// the digest that is expected.
pub proof fn law_choice_of_source<T, E>(
    request: &ReaderRequest,
    quiet: &ReaderRequest,
    step: ReaderStep<T, E>,
    quiet_step: ReaderStep<T, E>,
    told: ReaderStep<T, E>,
)
    requires
        !quiet.has_reporter,
        quiet.is_file == request.is_file,
        quiet.expected_sha256 == request.expected_sha256,
        quiet.config == request.config,
        call_ensures(ReaderRequest::begin::<T, E>, (request,), step),
        call_ensures(ReaderRequest::begin::<T, E>, (quiet,), quiet_step),
        step is ReportStart ==> call_ensures(
            PendingSource::resume::<T, E>,
            (step->ReportStart_0,),
            told,
        ),
    ensures
        step is ReportStart <==> request.has_reporter,
        request.has_reporter ==> told == quiet_step,
        !request.has_reporter ==> step == quiet_step,
        quiet_step is LocateFile <==> request.is_file,
        quiet_step is ParallelDownload <==> !request.is_file && request.config is Some
            && request.expected_sha256 is None,
        quiet_step is ParallelDownload ==> Some(quiet_step->ParallelDownload_0.config)
            == request.config,
        quiet_step is SendGet <==> !request.is_file && (request.config is None
            || request.expected_sha256 is Some),
        quiet_step is SendGet ==> quiet_step->SendGet_0.expected_sha256 == request.expected_sha256,
{
}

/// A file URL leads to the opening of the very file that `Url::to_file_path`
/// answers with; it leads to none only if that call fails.
pub proof fn law_file_is_located<T, E>(
    pending: PendingLocation,
    url: &Url,
    next: ReaderStep<T, E>,
)
    requires
        call_ensures(PendingLocation::resume::<T, E>, (pending, url), next),
    ensures
        next is OpenFile || next is NoFilePath,
        begins_with_file(url_text(*url)) && next is OpenFile ==> call_ensures(
            Url::to_file_path,
            (url,),
            Ok(next->OpenFile_0.path),
        ),
        begins_with_file(url_text(*url)) && next is NoFilePath ==> call_ensures(
            Url::to_file_path,
            (url,),
            Err(()),
        ),
        !begins_with_file(url_text(*url)) ==> next is NoFilePath,
{
    lemma_begins_with_file(url_text(*url));
}

/// A path that was found is the one that is opened.
pub proof fn law_found_path_is_opened<T, E>(
    pending: PendingLocation,
    path: Option<std::path::PathBuf>,
    next: ReaderStep<T, E>,
)
    requires
        call_ensures(PendingLocation::resume_with_path::<T, E>, (pending, path), next),
    ensures
        path is Some ==> next is OpenFile && next->OpenFile_0.path == path->0,
        path is None ==> next is NoFilePath,
{
}

/// A local file can be read exactly if it was opened, whatever its path; otherwise
/// the failure is that of the opening.
pub proof fn law_opened_file_is_read<T, E>(
    pending: PendingFile,
    outcome: Result<(), E>,
    next: ReaderStep<T, E>,
)
    requires
        call_ensures(PendingFile::resume::<T, E>, (pending, outcome), next),
    ensures
        next is Finished,
        next->Finished_0 is Ok <==> outcome is Ok,
        outcome is Ok ==> next->Finished_0->Ok_0 is LocalFile,
        outcome is Err ==> next->Finished_0->Err_0 == ExtractError::Outside(outcome->Err_0),
{
}

/// The file of a parallel download is read exactly if there is one and it was
/// opened, and it is that file.  Whatever goes wrong on the way, and whatever the
/// configuration, the object is then requested as a whole, without a digest.
pub proof fn law_parallel_path<T, E>(
    pending: PendingParallel,
    outcome: Result<Option<T>, ExtractError<E>>,
    opened: Result<(), E>,
    next: ReaderStep<T, E>,
    end: ReaderStep<T, E>,
)
    requires
        call_ensures(PendingParallel::resume::<T, E>, (pending, outcome), next),
        next is OpenTemp ==> call_ensures(
            PendingTempFile::<T>::resume::<E>,
            (next->OpenTemp_0, opened),
            end,
        ),
        !(next is OpenTemp) ==> end == next,
    ensures
        next is OpenTemp <==> outcome is Ok && outcome->Ok_0 is Some,
        next is OpenTemp ==> next->OpenTemp_0.temp == outcome->Ok_0->0,
        end is Finished <==> outcome is Ok && outcome->Ok_0 is Some && opened is Ok,
        end is Finished ==> end->Finished_0 is Ok && end->Finished_0->Ok_0 is TempFile
            && end->Finished_0->Ok_0->TempFile_0 == outcome->Ok_0->0,
        !(end is Finished) ==> end is SendGet && end->SendGet_0.expected_sha256 is None,
{
}

/// After a request for the object the package is open exactly if the request
/// succeeded, whatever digest it carried: nothing has been received yet, and the
/// size is the content length of the response.  If the request failed, opening the
/// package fails with that failure.
pub proof fn law_answered_request_is_read<T, E>(
    pending: PendingGet,
    other: PendingGet,
    outcome: Result<Option<u64>, E>,
    next: ReaderStep<T, E>,
    other_next: ReaderStep<T, E>,
)
    requires
        call_ensures(PendingGet::resume::<T, E>, (pending, outcome), next),
        call_ensures(PendingGet::resume::<T, E>, (other, outcome), other_next),
    ensures
        next == other_next,
        next is Finished,
        next->Finished_0 is Ok <==> outcome is Ok,
        outcome is Ok ==> next->Finished_0->Ok_0 is Response
            && next->Finished_0->Ok_0->Response_0.received == 0
            && next->Finished_0->Ok_0->Response_0.total == outcome->Ok_0,
        outcome is Err ==> next->Finished_0->Err_0 == ExtractError::Outside(outcome->Err_0),
{
}

/// A request carries a digest exactly if one is expected: sixty-four lower-case
/// hexadecimal digits, which read in pairs give back the bytes of the digest.
pub proof fn law_digest_is_sent(pending: &PendingGet, value: Option<String>)
    requires
        call_ensures(PendingGet::header_value, (pending,), value),
    ensures
        value is Some <==> pending.expected_sha256 is Some,
        value is Some ==> value->0@.len() == 64,
        value is Some ==> reads_as_hex(value->0@, pending.expected_sha256->0@),
        EXPECTED_SHA256_HEADER@ == "X-Expected-Sha256"@,
{
    if pending.expected_sha256 is Some {
        lemma_reads_as_hex(pending.expected_sha256->0@);
    }
}

/// What the work of the steps of a run comes to: the entry of a step counts in the
/// list for the kind of work that the step names.
pub struct ReaderOutcomes<T, E> {
    /// The path of a local file.
    pub located: Seq<Option<std::path::PathBuf>>,
    /// The opening of a local or temporary file.
    pub opened: Seq<Result<(), E>>,
    /// The parallel download.
    pub downloaded: Seq<Result<Option<T>, ExtractError<E>>>,
    /// The request for the object, with the content length of the response.
    pub answered: Seq<Result<Option<u64>, E>>,
}

impl<T, E> ReaderOutcomes<T, E> {
    /// `next` is what the call after the `i`-th step gives.
    pub open spec fn leads(self, i: int, step: ReaderStep<T, E>, next: ReaderStep<T, E>) -> bool {
        match step {
            ReaderStep::ReportStart(pending) => call_ensures(
                PendingSource::resume::<T, E>,
                (pending,),
                next,
            ),
            ReaderStep::LocateFile(pending) => call_ensures(
                PendingLocation::resume_with_path::<T, E>,
                (pending, self.located[i]),
                next,
            ),
            ReaderStep::OpenFile(pending) => call_ensures(
                PendingFile::resume::<T, E>,
                (pending, self.opened[i]),
                next,
            ),
            ReaderStep::ParallelDownload(pending) => call_ensures(
                PendingParallel::resume::<T, E>,
                (pending, self.downloaded[i]),
                next,
            ),
            ReaderStep::OpenTemp(pending) => call_ensures(
                PendingTempFile::<T>::resume::<E>,
                (pending, self.opened[i]),
                next,
            ),
            ReaderStep::SendGet(pending) => call_ensures(
                PendingGet::resume::<T, E>,
                (pending, self.answered[i]),
                next,
            ),
            _ => false,
        }
    }

    /// The steps of a run that opens a package, complete or not, as the calls give
    /// them.
    pub open spec fn run(self, request: ReaderRequest, steps: Seq<ReaderStep<T, E>>) -> bool {
        &&& steps.len() > 0
        &&& call_ensures(ReaderRequest::begin::<T, E>, (&request,), steps[0])
        &&& forall|i: int|
            0 <= i < steps.len() - 1 ==> self.leads(i, #[trigger] steps[i], steps[i + 1])
    }
}

proof fn lemma_reader_call_run<T, E>(
    outcomes: ReaderOutcomes<T, E>,
    request: ReaderRequest,
    steps: Seq<ReaderStep<T, E>>,
)
    requires
        outcomes.run(request, steps),
    ensures
        request.is_run(steps),
{
    assert forall|i: int| 0 <= i < steps.len() - 1 implies (#[trigger] steps[i]).can_lead_to(
        steps[i + 1],
    ) by {
        let next = steps[i + 1];
        assert(outcomes.leads(i, steps[i], next));
        match steps[i] {
            ReaderStep::LocateFile(pending) => {
                assert(next == pending.after::<T, E>(outcomes.located[i]));
            },
            ReaderStep::OpenFile(pending) => {
                assert(next == pending.after::<T, E>(outcomes.opened[i]));
            },
            ReaderStep::ParallelDownload(pending) => {
                assert(next == pending.after(outcomes.downloaded[i]));
            },
            ReaderStep::OpenTemp(pending) => {
                assert(next == pending.after(outcomes.opened[i]));
            },
            ReaderStep::SendGet(pending) => {
                assert(next == pending.after::<T, E>(outcomes.answered[i]));
            },
            _ => {},
        }
    }
}

/// The steps on the way to a package.  The reporter is told first, and once.  A
/// local file is never requested.  Where a digest is expected, every request carries
/// it and nothing is split.
pub proof fn law_reader_runs<T, E>(
    outcomes: ReaderOutcomes<T, E>,
    request: ReaderRequest,
    steps: Seq<ReaderStep<T, E>>,
    i: int,
)
    requires
        outcomes.run(request, steps),
        0 <= i < steps.len(),
    ensures
        steps.len() <= 5,
        steps[i] is ReportStart <==> i == 0 && request.has_reporter,
        steps[i] is SendGet ==> !request.is_file && steps[i]->SendGet_0.expected_sha256
            == request.expected_sha256,
        steps[i] is ParallelDownload ==> !request.is_file && request.expected_sha256 is None
            && request.config == Some(steps[i]->ParallelDownload_0.config),
        steps[i] is LocateFile || steps[i] is OpenFile ==> request.is_file,
{
    lemma_reader_call_run(outcomes, request, steps);
    law_reader_reports_start_once(request, steps, i);
    law_reader_keeps_to_request(request, steps, i);
}

/// What opening a package ends with is what its last work came to, and nothing is
/// made up: a response only if the request for the object was answered, with the
/// content length of that answer; a local file only if that was opened; a temporary
/// file only if that was opened and the parallel download had yielded it.  It ends
/// with a failure exactly if its last work failed, and with that failure.
pub proof fn law_reader_ends<T, E>(
    outcomes: ReaderOutcomes<T, E>,
    request: ReaderRequest,
    steps: Seq<ReaderStep<T, E>>,
)
    requires
        outcomes.run(request, steps),
        steps.last() is Finished,
    ensures
        steps.len() >= 2,
        match (steps[steps.len() - 2], steps.last()->Finished_0) {
            (ReaderStep::SendGet(_), Ok(ReaderSource::Response(progress))) => {
                &&& outcomes.answered[steps.len() - 2] == Ok::<Option<u64>, E>(progress.total)
                &&& progress.received == 0
            },
            (ReaderStep::SendGet(_), Err(ExtractError::Outside(e))) => {
                outcomes.answered[steps.len() - 2] == Err::<Option<u64>, E>(e)
            },
            (ReaderStep::OpenFile(_), Ok(ReaderSource::LocalFile)) => {
                outcomes.opened[steps.len() - 2] is Ok
            },
            (ReaderStep::OpenFile(_), Err(ExtractError::Outside(e))) => {
                outcomes.opened[steps.len() - 2] == Err::<(), E>(e)
            },
            (ReaderStep::OpenTemp(_), Ok(ReaderSource::TempFile(temp))) => {
                &&& outcomes.opened[steps.len() - 2] is Ok
                &&& steps.len() >= 3
                &&& steps[steps.len() - 3] is ParallelDownload
                &&& outcomes.downloaded[steps.len() - 3] == Ok::<Option<T>, ExtractError<E>>(
                    Some(temp),
                )
            },
            _ => false,
        },
{
    let last = steps.len() - 1;
    lemma_reader_call_run(outcomes, request, steps);
    law_reader_reports_start_once(request, steps, last);
    if last > 0 {
        assert(outcomes.leads(last - 1, steps[last - 1], steps[last - 1 + 1]));
        if last > 1 {
            assert(outcomes.leads(last - 2, steps[last - 2], steps[last - 2 + 1]));
        }
    }
}

// ---------------------------------------------------------------------------
// Extracting a package
// ---------------------------------------------------------------------------
/// The path decides how a package is unpacked, and nothing else does: one that ends
/// in `.tar.bz2` as such an archive, one that ends in `.conda` as such, both read as
/// requested, and any other not at all.
pub proof fn law_path_decides<S, O, E>(
    path: &str,
    request: ReaderRequest,
    step: ExtractionStep<S, O, E>,
)
    requires
        call_ensures(extract_by_path::<S, O, E>, (path, request), step),
    ensures
        step is GetReader <==> ends_in(path@, ".tar.bz2"@) || ends_in(path@, ".conda"@),
        step is GetReader ==> step->GetReader_0.request == request,
        ends_in(path@, ".tar.bz2"@) ==> step->GetReader_0.extractor is TarBz2,
        ends_in(path@, ".conda"@) ==> step->GetReader_0.extractor is Conda,
        !(step is GetReader) ==> step is Finished && step->Finished_0 is Err
            && step->Finished_0->Err_0 is UnsupportedArchiveType,
{
    lemma_endings(path@);
}

/// The six ways to begin an extraction.  The two that take any package begin as the
/// one for its kind does, and fail for a package of neither kind.  Each opens the
/// package as the caller asked for, with the caller's configuration or without one,
/// and the configuration has no part in how it is unpacked.
pub proof fn law_extractions_begin_alike<S, O, E>(
    url: &Url,
    expected_sha256: Option<Sha256Hash>,
    has_reporter: bool,
    config: &ParallelDownloadConfig,
    plain: ReaderRequest,
    split: ReaderRequest,
    any: ExtractionStep<S, O, E>,
    tar_bz2: ExtractionStep<S, O, E>,
    conda: ExtractionStep<S, O, E>,
    any_split: ExtractionStep<S, O, E>,
    tar_bz2_split: ExtractionStep<S, O, E>,
    conda_split: ExtractionStep<S, O, E>,
)
    requires
        call_ensures(get_reader, (url, expected_sha256, has_reporter), plain),
        call_ensures(get_reader_with_config, (url, expected_sha256, has_reporter, config), split),
        call_ensures(extract::<S, O, E>, (url, expected_sha256, has_reporter), any),
        call_ensures(extract_tar_bz2::<S, O, E>, (url, expected_sha256, has_reporter), tar_bz2),
        call_ensures(extract_conda::<S, O, E>, (url, expected_sha256, has_reporter), conda),
        call_ensures(
            extract_with_config::<S, O, E>,
            (url, expected_sha256, has_reporter, config),
            any_split,
        ),
        call_ensures(
            extract_tar_bz2_with_config::<S, O, E>,
            (url, expected_sha256, has_reporter, config),
            tar_bz2_split,
        ),
        call_ensures(
            extract_conda_with_config::<S, O, E>,
            (url, expected_sha256, has_reporter, config),
            conda_split,
        ),
    ensures
        tar_bz2 is GetReader && tar_bz2->GetReader_0.extractor is TarBz2
            && tar_bz2->GetReader_0.request == plain,
        conda is GetReader && conda->GetReader_0.extractor is Conda && conda->GetReader_0.request
            == plain,
        tar_bz2_split is GetReader && tar_bz2_split->GetReader_0.extractor is TarBz2
            && tar_bz2_split->GetReader_0.request == split,
        conda_split is GetReader && conda_split->GetReader_0.extractor is Conda
            && conda_split->GetReader_0.request == split,
        ends_in(url_path(*url), ".tar.bz2"@) ==> any == tar_bz2 && any_split == tar_bz2_split,
        ends_in(url_path(*url), ".conda"@) ==> any == conda && any_split == conda_split,
        !ends_in(url_path(*url), ".tar.bz2"@) && !ends_in(url_path(*url), ".conda"@) ==> any
            == any_split && any is Finished && any->Finished_0 is Err && any->Finished_0->Err_0
            is UnsupportedArchiveType,
{
    lemma_endings(url_path(*url));
}

/// A package is unpacked exactly if it was opened: what is unpacked is the reader
/// that was opened, with the extractor and the request that were due.  Otherwise
/// the extraction fails as the opening did.
pub proof fn law_opened_package_is_unpacked<S, O, E>(
    pending: PendingReader,
    outcome: Result<S, ExtractError<E>>,
    next: ExtractionStep<S, O, E>,
)
    requires
        call_ensures(PendingReader::resume::<S, O, E>, (pending, outcome), next),
    ensures
        next is Extract <==> outcome is Ok,
        next is Extract ==> next->Extract_1 == outcome->Ok_0 && next->Extract_0.request
            == pending.request && next->Extract_0.extractor == pending.extractor,
        outcome is Err ==> next is Finished && next->Finished_0 is Err && next->Finished_0->Err_0
            == outcome->Err_0,
{
}

/// The message of a failure says that the sizes are missing.
pub open spec fn says_sizes_are_missing<E>(failure: ExtractFailure<E>) -> bool {
    failure.unsupported_archive is Some && exists|before: Seq<char>, after: Seq<char>|
        failure.unsupported_archive->0@ == #[trigger] (before
            + "The file length is not available in the local header"@ + after)
}

proof fn lemma_needs_buffer<E>(failure: ExtractFailure<E>)
    ensures
        failure.needs_buffer() <==> says_sizes_are_missing(failure),
{
    if failure.unsupported_archive is Some {
        let text = failure.unsupported_archive->0@;
        let needle = "The file length is not available in the local header"@;
        if occurs_in(text, needle) {
            let at = choose|at: int| stands_at(text, needle, at);
            assert(text =~= text.take(at) + needle + text.skip(at + needle.len()));
        }
        assert forall|before: Seq<char>, after: Seq<char>|
            text == #[trigger] (before + needle + after) implies occurs_in(text, needle) by {
            assert(text.subrange(before.len() as int, (before.len() + needle.len()) as int)
                =~= needle);
            assert(stands_at(text, needle, before.len() as int));
        }
    }
}

/// A buffer is needed exactly if the zip reader found the archive unsupported with a
/// message that says so.
pub proof fn law_need_of_a_buffer<E>(failure: &ExtractFailure<E>, res: bool)
    requires
        call_ensures(ExtractFailure::<E>::needs_buffering, (failure,), res),
    ensures
        res <==> says_sizes_are_missing(*failure),
{
    lemma_needs_buffer(*failure);
}

/// What becomes of an attempt to unpack.  A success always ends the extraction with
/// what was unpacked, after the reporter was told, if there is one.  A failure
/// starts the fall back exactly if the archive was unpacked as a streaming `.conda`
/// archive and needs a buffer; any other failure is passed on.
pub proof fn law_attempt_to_unpack<S, O, E>(
    pending: PendingExtract,
    outcome: Result<O, ExtractFailure<E>>,
    next: ExtractionStep<S, O, E>,
    end: ExtractionStep<S, O, E>,
)
    requires
        call_ensures(PendingExtract::resume::<S, O, E>, (pending, outcome), next),
        next is ReportComplete ==> call_ensures(
            PendingComplete::<O>::resume::<S, E>,
            (next->ReportComplete_0,),
            end,
        ),
        !(next is ReportComplete) ==> end == next,
    ensures
        next is ReportComplete <==> outcome is Ok && pending.request.has_reporter,
        outcome is Ok ==> end is Finished && end->Finished_0 is Ok && end->Finished_0->Ok_0
            == outcome->Ok_0,
        next is FallBack <==> outcome is Err && pending.extractor is Conda
            && says_sizes_are_missing(outcome->Err_0),
        next is FallBack ==> next->FallBack_0.request == pending.request,
        outcome is Err && !(next is FallBack) ==> next is Finished && next->Finished_0 is Err
            && next->Finished_0->Err_0 == ExtractError::Outside(outcome->Err_0.error),
{
    if outcome is Err {
        lemma_needs_buffer(outcome->Err_0);
    }
}

/// A fall back always comes to the same package being opened again as before, to be
/// unpacked from a buffer; on the way the reporter, if there is one, is told that a
/// download is complete.
pub proof fn law_fall_back<S, O, E>(
    pending: PendingFallback,
    next: ExtractionStep<S, O, E>,
    again: ExtractionStep<S, O, E>,
)
    requires
        call_ensures(PendingFallback::resume::<S, O, E>, (pending,), next),
        next is ReportComplete ==> call_ensures(
            PendingComplete::<O>::resume::<S, E>,
            (next->ReportComplete_0,),
            again,
        ),
        !(next is ReportComplete) ==> again == next,
    ensures
        next is ReportComplete <==> pending.request.has_reporter,
        again is GetReader,
        again->GetReader_0.request == pending.request,
        again->GetReader_0.extractor is CondaViaBuffering,
{
}

/// A whole extraction, given what its work comes to: opening the package and
/// unpacking it, and the same once more where that is called for.  It always ends.
/// It succeeds exactly if the package was opened and unpacked, or was opened,
/// streamed in as a `.conda` archive, needed a buffer, and then was opened again and
/// unpacked.  What it yields is what was unpacked, and what it fails with is the
/// last failure; whether there is a reporter makes no difference.
pub proof fn law_extractions<S, O, E>(
    pending: PendingReader,
    reader: Result<S, ExtractError<E>>,
    unpacked: Result<O, ExtractFailure<E>>,
    second_reader: Result<S, ExtractError<E>>,
    second_unpacked: Result<O, ExtractFailure<E>>,
    opened: ExtractionStep<S, O, E>,
    tried: ExtractionStep<S, O, E>,
    logged: ExtractionStep<S, O, E>,
    told: ExtractionStep<S, O, E>,
    opened_again: ExtractionStep<S, O, E>,
    tried_again: ExtractionStep<S, O, E>,
    end: ExtractionStep<S, O, E>,
)
    requires
        pending.extractor is TarBz2 || pending.extractor is Conda,
        call_ensures(PendingReader::resume::<S, O, E>, (pending, reader), opened),
        match opened {
            ExtractionStep::Extract(pending, _) => call_ensures(
                PendingExtract::resume::<S, O, E>,
                (pending, unpacked),
                tried,
            ),
            _ => tried == opened,
        },
        match tried {
            ExtractionStep::FallBack(pending) => call_ensures(
                PendingFallback::resume::<S, O, E>,
                (pending,),
                logged,
            ),
            _ => logged == tried,
        },
        match logged {
            ExtractionStep::ReportComplete(pending) => call_ensures(
                PendingComplete::<O>::resume::<S, E>,
                (pending,),
                told,
            ),
            _ => told == logged,
        },
        match told {
            ExtractionStep::GetReader(pending) => call_ensures(
                PendingReader::resume::<S, O, E>,
                (pending, second_reader),
                opened_again,
            ),
            _ => opened_again == told,
        },
        match opened_again {
            ExtractionStep::Extract(pending, _) => call_ensures(
                PendingExtract::resume::<S, O, E>,
                (pending, second_unpacked),
                tried_again,
            ),
            _ => tried_again == opened_again,
        },
        match tried_again {
            ExtractionStep::ReportComplete(pending) => call_ensures(
                PendingComplete::<O>::resume::<S, E>,
                (pending,),
                end,
            ),
            _ => end == tried_again,
        },
    ensures
        end is Finished,
        told is GetReader <==> reader is Ok && unpacked is Err && pending.extractor is Conda
            && says_sizes_are_missing(unpacked->Err_0),
        told is GetReader ==> told->GetReader_0.request == pending.request
            && told->GetReader_0.extractor is CondaViaBuffering,
        opened is Extract ==> opened->Extract_1 == reader->Ok_0,
        opened_again is Extract ==> opened_again->Extract_1 == second_reader->Ok_0,
        reader is Err ==> end->Finished_0 == Err::<O, ExtractError<E>>(reader->Err_0),
        reader is Ok && unpacked is Ok ==> end->Finished_0 == Ok::<O, ExtractError<E>>(
            unpacked->Ok_0,
        ),
        reader is Ok && unpacked is Err && !(told is GetReader) ==> end->Finished_0 == Err::<
            O,
            ExtractError<E>,
        >(ExtractError::Outside(unpacked->Err_0.error)),
        told is GetReader && second_reader is Err ==> end->Finished_0 == Err::<O, ExtractError<E>>(
            second_reader->Err_0,
        ),
        told is GetReader && second_reader is Ok && second_unpacked is Ok ==> end->Finished_0
            == Ok::<O, ExtractError<E>>(second_unpacked->Ok_0),
        told is GetReader && second_reader is Ok && second_unpacked is Err ==> end->Finished_0
            == Err::<O, ExtractError<E>>(ExtractError::Outside(second_unpacked->Err_0.error)),
        !pending.request.has_reporter ==> !(logged is ReportComplete) && !(tried_again
            is ReportComplete),
        pending.request.has_reporter ==> (logged is ReportComplete <==> reader is Ok && (unpacked
            is Ok || told is GetReader)),
        pending.request.has_reporter ==> (tried_again is ReportComplete <==> told is GetReader
            && second_reader is Ok && second_unpacked is Ok),
{
    if unpacked is Err {
        lemma_needs_buffer(unpacked->Err_0);
    }
}

} // verus!
