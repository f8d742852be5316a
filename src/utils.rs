use vstd::prelude::*;
use crate::errors::{FindError, RequestError};
use crate::json::{Json, parse_document, json_document};
pub use crate::period::{Moment, Period};

verus! {

/// The lower-case form of `s`, as `str::to_lowercase` gives it.
pub uninterp spec fn lower_of(s: Seq<char>) -> Seq<char>;

/// Relies on `str::to_lowercase`, whose result depends on the characters alone.
#[verifier::external_body]
pub(crate) fn lowercase(s: &str) -> (r: String)
    ensures
        r@ == lower_of(s@),
{
    s.to_lowercase()
}

/// Whether `pattern` is a regular expression that `regex::Regex::new` accepts.
pub uninterp spec fn regex_compiles(pattern: Seq<char>) -> bool;

/// Whether the regular expression `pattern` matches somewhere in `text`,
/// as `regex::Regex::find` decides.
pub uninterp spec fn regex_finds(pattern: Seq<char>, text: Seq<char>) -> bool;

/// Relies on `regex::Regex::new`, which compiles `pattern` or rejects it, and
/// on `regex::Regex::find`, which looks for a match anywhere in `text`.
#[verifier::external_body]
fn regex_search(pattern: &str, text: &str) -> (r: Option<bool>)
    ensures
        r == (if regex_compiles(pattern@) {
            Some(regex_finds(pattern@, text@))
        } else {
            None
        }),
{
    regex::Regex::new(pattern).ok().map(|re| re.find(text).is_some())
}

/// What a search for `needle` in `haystack` gives: both are lower-cased and
/// the needle is read as a regular expression; `None` where it is not one.
pub open spec fn search_outcome(needle: Seq<char>, haystack: Seq<char>) -> Option<bool> {
    if regex_compiles(lower_of(needle)) {
        Some(regex_finds(lower_of(needle), lower_of(haystack)))
    } else {
        None
    }
}

/// Turns the outcome of a regular-expression search into the answer of
/// `find`: the found flag, or `InvalidRegexString` with `needle`.
pub fn match_outcome(outcome: Option<bool>, needle: &str) -> (r: Result<bool, FindError>)
    ensures
        match outcome {
            Some(found) => r == Ok::<bool, FindError>(found),
            None => r matches Err(FindError::InvalidRegexString(s)) && s@ == needle@,
        },
{
    match outcome {
        Some(found) => Ok(found),
        None => Err(FindError::InvalidRegexString(String::from_str(needle))),
    }
}

/// Whether `find_it` occurs in `search_here`, ignoring case.
///
/// Both are lower-cased and `find_it` is read as a regular expression, so
/// characters such as `.`, `*` or `(` keep their regular-expression meaning.
/// Fails with `InvalidRegexString(find_it)` where the lower-cased `find_it`
/// is no regular expression.
pub fn find(find_it: &str, search_here: &str) -> (r: Result<bool, FindError>)
    ensures
        match search_outcome(find_it@, search_here@) {
            Some(found) => r == Ok::<bool, FindError>(found),
            None => r matches Err(FindError::InvalidRegexString(s)) && s@ == find_it@,
        },
{
    let pattern = lowercase(find_it);
    let text = lowercase(search_here);
    match_outcome(regex_search(pattern.as_str(), text.as_str()), find_it)
}

/// A search depends on the needle and the haystack only through their
/// lower-case forms: texts that differ in case alone give the same outcome.
pub proof fn lemma_search_ignores_case(n1: Seq<char>, n2: Seq<char>, h1: Seq<char>, h2: Seq<char>)
    requires
        lower_of(n1) == lower_of(n2),
        lower_of(h1) == lower_of(h2),
    ensures
        search_outcome(n1, h1) == search_outcome(n2, h2),
{
}

/// Whether `a` and `b` are equal once lower-cased.
pub fn same_lowercase(a: &str, b: &str) -> (r: bool)
    ensures
        r == (lower_of(a@) == lower_of(b@)),
{
    let la = lowercase(a);
    let lb = lowercase(b);
    la == lb
}

/// The reason phrase that HTTP gives status `code`, where it names one.
pub uninterp spec fn reason_phrase_of(code: u16) -> Option<Seq<char>>;

/// Relies on `reqwest::StatusCode::canonical_reason`, the reason phrase of a
/// status code, where it names one; `StatusCode::from_u16` builds the code,
/// and a code it refuses has no phrase.
#[verifier::external_body]
fn reason_phrase(code: u16) -> (r: Option<String>)
    ensures
        match r {
            Some(s) => reason_phrase_of(code) == Some(s@),
            None => reason_phrase_of(code) is None,
        },
{
    reqwest::StatusCode::from_u16(code).ok().and_then(|s| s.canonical_reason()).map(|s| s.to_string())
}

/// The reason phrase that a reply with status `code` reports: the one HTTP
/// gives it, or the empty text where it gives none.
pub open spec fn reported_reason(code: u16) -> Seq<char> {
    match reason_phrase_of(code) {
        Some(s) => s,
        None => seq![],
    }
}

/// What came back from an HTTP GET: the status code and the body.
#[derive(Debug, Clone)]
pub struct HttpResponse {
    pub status: u16,
    pub body: Vec<u8>,
}

/// Whether `e` is the error that `get_wrapper` reports for `reply` where
/// `reply` brings no JSON; `InvalidReturn` stands for JSON that is no array.
pub open spec fn request_failure(reply: Option<HttpResponse>, e: RequestError) -> bool {
    match reply {
        None => e == RequestError::GetFailed,
        Some(resp) => if resp.status != 200 {
            e matches RequestError::BadResponse(reason, code) && code == resp.status && reason@
                == reported_reason(resp.status)
        } else {
            match json_document(resp.body@) {
                None => e == RequestError::NotJson,
                Some(Json::Array(_)) => false,
                Some(_) => e == RequestError::InvalidReturn,
            }
        },
    }
}

/// The items of the JSON array that `reply` brings, where it brings one.
pub open spec fn reply_items(reply: Option<HttpResponse>) -> Option<Seq<Json>> {
    match reply {
        Some(resp) => if resp.status == 200 {
            match json_document(resp.body@) {
                Some(Json::Array(items)) => Some(items@),
                _ => None,
            }
        } else {
            None
        },
        None => None,
    }
}

/// Turns the outcome of an HTTP GET (`None` where the request failed) into
/// the JSON document it brought.
///
/// Fails with `GetFailed` where the request failed, with
/// `BadResponse(reason, status)` where the status is not 200 (the reason is
/// empty where HTTP names none), and with
/// `NotJson` where the body is not JSON.
pub fn get_wrapper(get_response: Option<HttpResponse>) -> (r: Result<Json, RequestError>)
    ensures
        match get_response {
            None => r == Err::<Json, RequestError>(RequestError::GetFailed),
            Some(resp) => if resp.status != 200 {
                r matches Err(RequestError::BadResponse(reason, code)) && code == resp.status
                    && reason@ == reported_reason(resp.status)
            } else {
                match json_document(resp.body@) {
                    None => r == Err::<Json, RequestError>(RequestError::NotJson),
                    Some(j) => r == Ok::<Json, RequestError>(j),
                }
            },
        },
{
    match get_response {
        None => Err(RequestError::GetFailed),
        Some(resp) => {
            if resp.status != 200 {
                let reason = match reason_phrase(resp.status) {
                    Some(s) => s,
                    None => String::new(),
                };
                Err(RequestError::BadResponse(reason, resp.status))
            } else {
                match parse_document(resp.body.as_slice()) {
                    None => Err(RequestError::NotJson),
                    Some(j) => Ok(j),
                }
            }
        },
    }
}

/// The items of the JSON array that `reply` brings; fails as `get_wrapper`
/// does, and with `InvalidReturn` where the document is no array.
pub fn reply_array(reply: Option<HttpResponse>) -> (r: Result<Vec<Json>, RequestError>)
    ensures
        match reply_items(reply) {
            Some(items) => r matches Ok(v) && v@ == items,
            None => r matches Err(e) && request_failure(reply, e),
        },
{
    match get_wrapper(reply) {
        Ok(Json::Array(items)) => Ok(items),
        Ok(_) => Err(RequestError::InvalidReturn),
        Err(e) => Err(e),
    }
}

/// The digits of `n` in base ten.
pub open spec fn digits_of(n: nat) -> Seq<char>
    decreases n,
{
    let d = seq!['0', '1', '2', '3', '4', '5', '6', '7', '8', '9'][(n % 10) as int];
    if n < 10 {
        seq![d]
    } else {
        digits_of(n / 10).push(d)
    }
}

/// `n` written in base ten, with a leading `-` where it is negative.
pub open spec fn decimal_text(n: int) -> Seq<char> {
    if n < 0 {
        seq!['-'] + digits_of((-n) as nat)
    } else {
        digits_of(n as nat)
    }
}

/// Whether `c` is one of the ASCII digits `0` to `9`.
pub open spec fn is_digit(c: char) -> bool {
    '0' <= c && c <= '9'
}

/// The value of the ASCII digit `c`.
pub open spec fn digit_value(c: char) -> int {
    c as int - '0' as int
}

/// The value of the digits `s` in base ten.
pub open spec fn digits_value(s: Seq<char>) -> int
    decreases s.len(),
{
    if s.len() == 0 {
        0
    } else {
        digits_value(s.drop_last()) * 10 + digit_value(s.last())
    }
}

/// Whether `s` is exactly ten ASCII digits, the form of a Unix timestamp in
/// seconds from 2001-09-09 to 2286-11-20.
pub open spec fn ten_digits(s: Seq<char>) -> bool {
    s.len() == 10 && forall|i: int| 0 <= i < 10 ==> is_digit(#[trigger] s[i])
}

/// Ten digits read as a value below 1e10.
pub proof fn lemma_ten_digits_bound(s: Seq<char>)
    requires
        ten_digits(s),
    ensures
        0 <= digits_value(s) < 10_000_000_000,
{
    assert(forall|i: int| 0 <= i < 10 ==> 0 <= digit_value(#[trigger] s[i]) <= 9);
    let s1 = s.drop_last();
    let s2 = s1.drop_last();
    let s3 = s2.drop_last();
    let s4 = s3.drop_last();
    let s5 = s4.drop_last();
    let s6 = s5.drop_last();
    let s7 = s6.drop_last();
    let s8 = s7.drop_last();
    let s9 = s8.drop_last();
    let s10 = s9.drop_last();
    assert(s10.len() == 0);
    assert(digits_value(s10) == 0);
    assert(0 <= digit_value(s9.last()) <= 9 && s9.last() == s[0]);
    assert(0 <= digit_value(s8.last()) <= 9 && s8.last() == s[1]);
    assert(0 <= digit_value(s7.last()) <= 9 && s7.last() == s[2]);
    assert(0 <= digit_value(s6.last()) <= 9 && s6.last() == s[3]);
    assert(0 <= digit_value(s5.last()) <= 9 && s5.last() == s[4]);
    assert(0 <= digit_value(s4.last()) <= 9 && s4.last() == s[5]);
    assert(0 <= digit_value(s3.last()) <= 9 && s3.last() == s[6]);
    assert(0 <= digit_value(s2.last()) <= 9 && s2.last() == s[7]);
    assert(0 <= digit_value(s1.last()) <= 9 && s1.last() == s[8]);
    assert(0 <= digit_value(s.last()) <= 9 && s.last() == s[9]);
    assert(0 <= digits_value(s9) < 10);
    assert(0 <= digits_value(s8) < 100);
    assert(0 <= digits_value(s7) < 1000);
    assert(0 <= digits_value(s6) < 10_000);
    assert(0 <= digits_value(s5) < 100_000);
    assert(0 <= digits_value(s4) < 1_000_000);
    assert(0 <= digits_value(s3) < 10_000_000);
    assert(0 <= digits_value(s2) < 100_000_000);
    assert(0 <= digits_value(s1) < 1_000_000_000);
}

/// `digits_of(n)` is made of digits, has the value `n`, and has one digit
/// more than `digits_of(n / 10)` where `n` is 10 or more.
pub proof fn lemma_digits_of(n: nat)
    ensures
        forall|i: int| 0 <= i < digits_of(n).len() ==> is_digit(#[trigger] digits_of(n)[i]),
        digits_value(digits_of(n)) == n,
        n < 10 ==> digits_of(n).len() == 1,
        n >= 10 ==> digits_of(n).len() == digits_of(n / 10).len() + 1,
    decreases n,
{
    let d = seq!['0', '1', '2', '3', '4', '5', '6', '7', '8', '9'][(n % 10) as int];
    assert(is_digit(d) && digit_value(d) == n % 10) by {
        let k = n % 10;
        assert(0 <= k < 10);
        if k == 0 { } else if k == 1 { } else if k == 2 { } else if k == 3 { } else if k == 4 {
        } else if k == 5 { } else if k == 6 { } else if k == 7 { } else if k == 8 { } else { }
    }
    if n >= 10 {
        lemma_digits_of(n / 10);
        let s = digits_of(n);
        assert(s.drop_last() =~= digits_of(n / 10));
        assert(s.last() == d);
        assert(n == (n / 10) * 10 + n % 10);
        assert(forall|i: int| 0 <= i < s.len() - 1 ==> s[i] == digits_of(n / 10)[i]);
    } else {
        let s = digits_of(n);
        assert(s.drop_last() =~= Seq::<char>::empty());
        assert(s.last() == d);
        assert(digits_value(s.drop_last()) == 0);
    }
}

/// A timestamp from 1e9 to 1e10 - 1 is written as ten digits that read back
/// as its value.
pub proof fn lemma_ten_digit_text(n: int)
    requires
        1_000_000_000 <= n < 10_000_000_000,
    ensures
        ten_digits(decimal_text(n)),
        digits_value(decimal_text(n)) == n,
{
    lemma_digits_of(n as nat);
    lemma_length_by_steps(n as nat);
}

/// How many digits `digits_of` gives for numbers from 1e9 to 1e10 - 1.
proof fn lemma_length_by_steps(n: nat)
    requires
        1_000_000_000 <= n < 10_000_000_000,
    ensures
        digits_of(n).len() == 10,
{
    let n1 = n / 10;
    let n2 = n1 / 10;
    let n3 = n2 / 10;
    let n4 = n3 / 10;
    let n5 = n4 / 10;
    let n6 = n5 / 10;
    let n7 = n6 / 10;
    let n8 = n7 / 10;
    let n9 = n8 / 10;
    assert(1 <= n9 < 10);
    lemma_digits_of(n);
    lemma_digits_of(n1);
    lemma_digits_of(n2);
    lemma_digits_of(n3);
    lemma_digits_of(n4);
    lemma_digits_of(n5);
    lemma_digits_of(n6);
    lemma_digits_of(n7);
    lemma_digits_of(n8);
    lemma_digits_of(n9);
}

/// The text of the digit `d`.
fn digit_text(d: u64) -> (r: &'static str)
    requires
        d < 10,
    ensures
        r@ == seq![seq!['0', '1', '2', '3', '4', '5', '6', '7', '8', '9'][d as int]],
{
    proof {
        reveal_strlit("0");
        reveal_strlit("1");
        reveal_strlit("2");
        reveal_strlit("3");
        reveal_strlit("4");
        reveal_strlit("5");
        reveal_strlit("6");
        reveal_strlit("7");
        reveal_strlit("8");
        reveal_strlit("9");
    }
    let r = if d == 0 {
        "0"
    } else if d == 1 {
        "1"
    } else if d == 2 {
        "2"
    } else if d == 3 {
        "3"
    } else if d == 4 {
        "4"
    } else if d == 5 {
        "5"
    } else if d == 6 {
        "6"
    } else if d == 7 {
        "7"
    } else if d == 8 {
        "8"
    } else {
        "9"
    };
    assert(r@ =~= seq![seq!['0', '1', '2', '3', '4', '5', '6', '7', '8', '9'][d as int]]);
    r
}

/// Appends the digits of `n` in base ten to `out`.
fn append_digits(n: u64, out: &mut String)
    ensures
        final(out)@ == old(out)@ + digits_of(n as nat),
    decreases n,
{
    if n >= 10 {
        append_digits(n / 10, out);
    }
    out.append(digit_text(n % 10));
    proof {
        if n < 10 {
            assert(digits_of(n as nat) =~= seq![seq!['0', '1', '2', '3', '4', '5', '6', '7', '8', '9'][(n % 10) as int]]);
        }
    }
    assert(out@ =~= old(out)@ + digits_of(n as nat));
}

/// `n` written in base ten, with a leading `-` where it is negative.
pub fn int_text(n: i64) -> (r: String)
    ensures
        r@ == decimal_text(n as int),
{
    let mut r = String::new();
    if n < 0 {
        r.append("-");
        proof {
            reveal_strlit("-");
        }
        let m: u64 = (-(n as i128)) as u64;
        append_digits(m, &mut r);
        assert(r@ =~= decimal_text(n as int));
    } else {
        append_digits(n as u64, &mut r);
        assert(r@ =~= decimal_text(n as int));
    }
    r
}

} // verus!
