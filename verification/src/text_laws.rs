//! What texts and documents promise: numbers are read as they were written, and members are found
//! under their names.
use vstd::prelude::*;

use crate::answer_laws::holds_integer;
use crate::http_requests::{payload_with_routed_dp_rank_header, routed_dp_rank_header};
use crate::json::{Json, JsonNumber, JsonView};
use crate::text::{
    decimal, decimal_reads_back, digits_value, find_chars, parse_i32, parse_unsigned, parse_usize,
    same_text, signed_decimal, signed_decimal_reads_back, stands_at, text_of, to_ascii_lowercase,
};

verus! {

/// A number is read as it was written, with or without a sign before it.
pub proof fn written_numbers_are_read(s: &str, n: nat, value: Option<usize>)
    requires
        call_ensures(parse_usize, (s,), value),
        s@ == decimal(n) || s@ == seq!['+'] + decimal(n),
    ensures
        n <= usize::MAX ==> value is Some && value->0 == n,
        n > usize::MAX ==> value is None,
{
    decimal_reads_back(n);
    assert((seq!['+'] + decimal(n)).skip(1) =~= decimal(n));
    assert('0' <= decimal(n)[0] && decimal(n)[0] <= '9');
}

/// A number is read where it is no greater than the greatest that is asked for.
pub proof fn numbers_are_read_up_to_the_greatest(s: &str, n: nat, max: u64, value: Option<u64>)
    requires
        call_ensures(parse_unsigned, (s, max), value),
        s@ == decimal(n),
    ensures
        n <= max ==> value is Some && value->0 == n,
        n > max ==> value is None,
{
    decimal_reads_back(n);
}

/// A signed number of 32 bits is read as it was written.
pub proof fn signed_numbers_are_read(s: &str, n: int, value: Option<i32>)
    requires
        call_ensures(parse_i32, (s,), value),
        s@ == signed_decimal(n),
    ensures
        i32::MIN <= n <= i32::MAX ==> value is Some && value->0 == n,
        n < i32::MIN || n > i32::MAX ==> value is None,
{
    signed_decimal_reads_back(n);
}

/// A numeral consists of digits.
pub proof fn lemma_digits(s: Seq<char>, i: int)
    requires
        digits_value(s) is Some,
        0 <= i < s.len(),
    ensures
        '0' <= s[i] <= '9',
    decreases s.len(),
{
    if s.len() > 1 {
        if i < s.len() - 1 {
            lemma_digits(s.drop_last(), i);
            assert(s.drop_last()[i] == s[i]);
        }
    }
}

/// A text with anything but digits behind its sign is no number, and neither is an empty one.
pub proof fn other_texts_are_no_numbers(s: &str, i: int, value: Option<usize>, signed: Option<i32>)
    requires
        call_ensures(parse_usize, (s,), value),
        call_ensures(parse_i32, (s,), signed),
        s@.len() == 0 || 0 < i < s@.len() && !('0' <= s@[i] <= '9') || s@.len() == 1 && !('0'
            <= s@[0] <= '9'),
    ensures
        value is None,
        signed is None,
{
    if s@.len() > 1 {
        let rest = s@.skip(1);
        if digits_value(rest) is Some {
            lemma_digits(rest, i - 1);
            assert(rest[i - 1] == s@[i]);
        }
        if digits_value(s@) is Some {
            lemma_digits(s@, i);
        }
    } else if s@.len() == 1 {
        assert(s@.skip(1).len() == 0);
    }
}

/// Capital letters become small ones, and every other character stays.
pub proof fn capitals_become_small(s: &str, lower: String, i: int)
    requires
        call_ensures(to_ascii_lowercase, (s,), lower),
        0 <= i < s@.len(),
    ensures
        lower@.len() == s@.len(),
        'A' <= s@[i] <= 'Z' ==> lower@[i] as int == s@[i] as int + 32,
        !('A' <= s@[i] <= 'Z') ==> lower@[i] == s@[i],
{
    lemma_lower(s@[i]);
}

/// A capital letter and its small one.
pub proof fn lemma_lower(c: char)
    ensures
        'A' <= c <= 'Z' ==> crate::text::lower_char(c) as int == c as int + 32,
{
    if 'A' <= c <= 'Z' {
        let code = c as u32;
        assert(c as u8 == code);
    }
}

/// A pattern is found at the first place where it stands.
pub proof fn patterns_are_found_at_their_first_place(
    chars: Vec<char>,
    pattern: &str,
    place: Option<usize>,
    k: int,
)
    requires
        call_ensures(find_chars, (&chars, pattern), place),
    ensures
        place matches Some(i) ==> chars@.subrange(i as int, i + pattern@.len()) == pattern@,
        0 <= k && k + pattern@.len() <= chars@.len() && chars@.subrange(k, k + pattern@.len())
            == pattern@ ==> place is Some && place->0 <= k,
{
    crate::peer_laws::lemma_found(chars@, pattern@, 0);
    if 0 <= k && k + pattern@.len() <= chars@.len() && chars@.subrange(k, k + pattern@.len())
        == pattern@ {
        assert(stands_at(chars@, pattern@, k));
    }
}

/// A piece of a text holds the characters from one place up to another.
pub proof fn pieces_hold_their_characters(
    chars: Vec<char>,
    from: usize,
    to: usize,
    text: String,
    i: int,
)
    requires
        from <= to <= chars@.len(),
        call_ensures(text_of, (&chars, from, to), text),
        0 <= i < to - from,
    ensures
        text@.len() == to - from,
        text@[i] == chars@[from + i],
{
}

/// Texts are the same where their characters are.
pub proof fn texts_are_the_same_where_their_characters_are(a: &str, b: &str, same: bool)
    requires
        call_ensures(same_text, (a, b), same),
    ensures
        same <==> a@.len() == b@.len() && forall|i: int|
            0 <= i < a@.len() ==> #[trigger] a@[i] == b@[i],
{
    if a@.len() == b@.len() && forall|i: int| 0 <= i < a@.len() ==> #[trigger] a@[i] == b@[i] {
        assert(a@ =~= b@);
    }
}

/// A member that is set is found, and every other member stays.
pub proof fn members_are_found_under_their_names(
    before: Json,
    key: &str,
    value: Json,
    after: Json,
    other: &str,
    found: Option<&Json>,
    kept: Option<&Json>,
    earlier: Option<&Json>,
)
    requires
        before@ is Object,
        call_ensures(Json::with, (before, key, value), after),
        call_ensures(Json::get, (&after, key), found),
        call_ensures(Json::get, (&after, other), kept),
        call_ensures(Json::get, (&before, other), earlier),
    ensures
        found is Some && found->0@ == value@,
        other@ != key@ ==> (kept is Some <==> earlier is Some) && (kept is Some ==> kept->0@
            == earlier->0@),
{
}

/// Values are read as what they are, and as nothing else.
pub proof fn values_are_read_as_what_they_are(
    json: Json,
    text: Option<&str>,
    flag: Option<bool>,
    natural: Option<u64>,
    integer: Option<i64>,
)
    requires
        call_ensures(Json::as_str, (&json,), text),
        call_ensures(Json::as_bool, (&json,), flag),
        call_ensures(Json::as_u64, (&json,), natural),
        call_ensures(Json::as_i64, (&json,), integer),
    ensures
        text matches Some(s) ==> json@ == JsonView::Text(s@),
        json@ is Text <==> text is Some,
        flag matches Some(b) ==> json@ == JsonView::Bool(b),
        json@ is Bool <==> flag is Some,
        json@ matches JsonView::Number(JsonNumber::Unsigned(n)) ==> natural == Some(n),
        json@ matches JsonView::Number(JsonNumber::Unsigned(n)) ==> n <= i64::MAX ==> integer
            is Some && integer->0 == n,
        json@ matches JsonView::Number(JsonNumber::Unsigned(n)) ==> n > i64::MAX ==> integer is None,
        json@ matches JsonView::Number(JsonNumber::Negative(n)) ==> integer == Some(n)
            && natural is None,
        json@ matches JsonView::Number(JsonNumber::Float(_)) ==> integer is None && natural is None,
        !(json@ is Number) ==> integer is None && natural is None,
{
}

/// Values are made of what they are to hold.
pub proof fn values_hold_what_they_are_made_of(
    s: &str,
    flag: bool,
    n: u64,
    i: i64,
    text: Json,
    boolean: Json,
    natural: Json,
    integer: Json,
    back: Option<i64>,
)
    requires
        call_ensures(Json::text, (s,), text),
        call_ensures(Json::boolean, (flag,), boolean),
        call_ensures(Json::natural, (n,), natural),
        call_ensures(Json::integer, (i,), integer),
        call_ensures(Json::as_i64, (&integer,), back),
    ensures
        text@ == JsonView::Text(s@),
        boolean@ == JsonView::Bool(flag),
        natural@ == JsonView::Number(JsonNumber::Unsigned(n)),
        back == Some(i),
{
}

/// The bytes of a text of plain characters.
pub open spec fn are_bytes_of(bytes: Seq<u8>, text: Seq<char>) -> bool {
    bytes.len() == text.len() && forall|i: int|
        0 <= i < bytes.len() ==> #[trigger] bytes[i] as int == text[i] as int
}

/// Plain characters are read from their bytes.
pub proof fn lemma_header_text(bytes: Seq<u8>, text: Seq<char>)
    requires
        are_bytes_of(bytes, text),
        forall|i: int| 0 <= i < text.len() ==> #[trigger] text[i] as int <= 126,
    ensures
        crate::http_requests::header_text(bytes) == text,
{
    assert forall|i: int| 0 <= i < bytes.len() implies bytes[i] as char == #[trigger] text[i] by {
        assert(bytes[i] as int == text[i] as int);
    }
    assert(crate::http_requests::header_text(bytes) =~= text);
}

/// The rank in a header is the number that is written there.
pub proof fn ranks_in_headers_are_read(
    header: Vec<u8>,
    n: nat,
    rank: Result<Option<i32>, String>,
    none: Result<Option<i32>, String>,
)
    requires
        call_ensures(routed_dp_rank_header, (Some(&header),), rank),
        call_ensures(routed_dp_rank_header, (None,), none),
        are_bytes_of(header@, decimal(n)),
    ensures
        none == Ok::<Option<i32>, String>(None),
        n <= i32::MAX ==> rank is Ok && rank->Ok_0 is Some && rank->Ok_0->0 == n,
        n > i32::MAX ==> rank is Err,
{
    decimal_reads_back(n);
    assert forall|i: int| 0 <= i < decimal(n).len() implies #[trigger] decimal(n)[i] as int
        <= 126 by {
        assert('0' <= decimal(n)[i] && decimal(n)[i] <= '9');
    }
    lemma_header_text(header@, decimal(n));
    assert forall|i: int| 0 <= i < header@.len() implies (32 <= #[trigger] header@[i]
        && header@[i] < 127) || header@[i] == 9 by {
        assert('0' <= decimal(n)[i] && decimal(n)[i] <= '9');
        assert(header@[i] as int == decimal(n)[i] as int);
    }
    assert(crate::http_requests::is_header_text(header@));
}

/// The rank in a header is told by the payload; every other member stays.
pub proof fn ranks_in_headers_are_told(
    payload: Json,
    header: Vec<u8>,
    rank: i32,
    merged: Result<Json, String>,
    same: Result<Json, String>,
    other: Seq<char>,
)
    requires
        payload@ is Object,
        call_ensures(
            routed_dp_rank_header,
            (Some(&header),),
            Ok::<Option<i32>, String>(Some(rank)),
        ),
        call_ensures(payload_with_routed_dp_rank_header, (payload, Some(&header)), merged),
        call_ensures(payload_with_routed_dp_rank_header, (payload, None), same),
    ensures
        merged is Ok && holds_integer(merged->Ok_0@, "routed_dp_rank"@, rank as int),
        other != "routed_dp_rank"@ ==> merged->Ok_0@.get(other) == payload@.get(other),
        same is Ok && same->Ok_0@ == payload@,
{
}

} // verus!
