//! Text building blocks: concatenation, decimal numerals and their parsers.
use vstd::prelude::*;
use vstd::string::*;

verus! {

/// The character of the decimal digit `d`.
pub open spec fn digit_char(d: int) -> char {
    if d == 0 {
        '0'
    } else if d == 1 {
        '1'
    } else if d == 2 {
        '2'
    } else if d == 3 {
        '3'
    } else if d == 4 {
        '4'
    } else if d == 5 {
        '5'
    } else if d == 6 {
        '6'
    } else if d == 7 {
        '7'
    } else if d == 8 {
        '8'
    } else {
        '9'
    }
}

/// The decimal numeral of `n`, without leading zeros.
pub open spec fn decimal(n: nat) -> Seq<char>
    decreases n,
{
    if n < 10 {
        seq![digit_char(n as int)]
    } else {
        decimal(n / 10).push(digit_char((n % 10) as int))
    }
}

/// The decimal numeral of a signed number, with a leading `-` where it is negative.
pub open spec fn signed_decimal(n: int) -> Seq<char> {
    if n < 0 {
        seq!['-'] + decimal((-n) as nat)
    } else {
        decimal(n as nat)
    }
}

/// The value of a decimal digit character.
pub open spec fn digit_value(c: char) -> Option<nat> {
    if '0' <= c && c <= '9' {
        Some((c as u32 - '0' as u32) as nat)
    } else {
        None
    }
}

/// The number that a non-empty run of decimal digits denotes.
pub open spec fn digits_value(s: Seq<char>) -> Option<nat>
    decreases s.len(),
{
    if s.len() == 0 {
        None
    } else if s.len() == 1 {
        digit_value(s[0])
    } else {
        match (digits_value(s.drop_last()), digit_value(s.last())) {
            (Some(high), Some(low)) => Some(high * 10 + low),
            _ => None,
        }
    }
}

fn digit_to_char(d: u64) -> (c: char)
    requires
        d < 10,
    ensures
        c == digit_char(d as int),
{
    if d == 0 {
        '0'
    } else if d == 1 {
        '1'
    } else if d == 2 {
        '2'
    } else if d == 3 {
        '3'
    } else if d == 4 {
        '4'
    } else if d == 5 {
        '5'
    } else if d == 6 {
        '6'
    } else if d == 7 {
        '7'
    } else if d == 8 {
        '8'
    } else {
        '9'
    }
}

/// std's `String::push` appends one character.
pub assume_specification[ String::push ](s: &mut String, c: char)
    ensures
        final(s)@ == old(s)@.push(c),
;

/// The decimal numeral of a number.
pub fn decimal_u64(n: u64) -> (text: String)
    ensures
        text@ == decimal(n as nat),
    decreases n,
{
    if n < 10 {
        let mut text = String::new();
        text.push(digit_to_char(n));
        proof {
            assert(text@ =~= decimal(n as nat));
        }
        text
    } else {
        let mut text = decimal_u64(n / 10);
        text.push(digit_to_char(n % 10));
        text
    }
}

/// The decimal numeral of a size.
pub fn decimal_usize(n: usize) -> (text: String)
    ensures
        text@ == decimal(n as nat),
{
    decimal_u64(n as u64)
}

/// The decimal numeral of a signed number.
pub fn decimal_i64(n: i64) -> (text: String)
    ensures
        text@ == signed_decimal(n as int),
{
    if n >= 0 {
        decimal_u64(n as u64)
    } else {
        let magnitude: u64 = if n == i64::MIN {
            9223372036854775808u64
        } else {
            (-n) as u64
        };
        let digits = decimal_u64(magnitude);
        let mut text = String::new();
        text.push('-');
        text.append(digits.as_str());
        proof {
            assert(text@ =~= seq!['-'] + decimal((-n) as nat));
        }
        text
    }
}

/// The two texts, one after the other.
pub fn cat2(a: &str, b: &str) -> (text: String)
    ensures
        text@ == a@ + b@,
{
    let mut text = a.to_owned();
    text.append(b);
    text
}

/// The three texts, one after the other.
pub fn cat3(a: &str, b: &str, c: &str) -> (text: String)
    ensures
        text@ == a@ + b@ + c@,
{
    let mut text = cat2(a, b);
    text.append(c);
    text
}

/// The four texts, one after the other.
pub fn cat4(a: &str, b: &str, c: &str, d: &str) -> (text: String)
    ensures
        text@ == a@ + b@ + c@ + d@,
{
    let mut text = cat3(a, b, c);
    text.append(d);
    text
}

/// The five texts, one after the other.
pub fn cat5(a: &str, b: &str, c: &str, d: &str, e: &str) -> (text: String)
    ensures
        text@ == a@ + b@ + c@ + d@ + e@,
{
    let mut text = cat4(a, b, c, d);
    text.append(e);
    text
}

/// The six texts, one after the other.
pub fn cat6(a: &str, b: &str, c: &str, d: &str, e: &str, f: &str) -> (text: String)
    ensures
        text@ == a@ + b@ + c@ + d@ + e@ + f@,
{
    let mut text = cat5(a, b, c, d, e);
    text.append(f);
    text
}

/// The seven texts, one after the other.
pub fn cat7(a: &str, b: &str, c: &str, d: &str, e: &str, f: &str, g: &str) -> (text: String)
    ensures
        text@ == a@ + b@ + c@ + d@ + e@ + f@ + g@,
{
    let mut text = cat6(a, b, c, d, e, f);
    text.append(g);
    text
}

/// Whether two texts hold the same characters.
pub fn same_text(a: &str, b: &str) -> (same: bool)
    ensures
        same == (a@ == b@),
{
    let left = a.to_owned();
    let right = b.to_owned();
    left == right
}

/// The characters of a text.
pub fn chars_of(s: &str) -> (chars: Vec<char>)
    ensures
        chars@ == s@,
{
    let mut chars: Vec<char> = Vec::new();
    for c in it: s.chars()
        invariant
            it.seq() == s@,
            chars@ == s@.take(it.index()),
    {
        proof {
            assert(s@.take(it.index() + 1) =~= s@.take(it.index()).push(c));
        }
        chars.push(c);
    }
    proof {
        assert(s@.take(s@.len() as int) =~= s@);
    }
    chars
}

/// The text made of the characters `chars[from..to]`.
pub fn text_of(chars: &Vec<char>, from: usize, to: usize) -> (text: String)
    requires
        from <= to <= chars@.len(),
    ensures
        text@ == chars@.subrange(from as int, to as int),
{
    let mut text = String::new();
    let mut i: usize = from;
    proof {
        assert(text@ =~= chars@.subrange(from as int, from as int));
    }
    while i < to
        invariant
            from <= i <= to <= chars@.len(),
            text@ == chars@.subrange(from as int, i as int),
        decreases to - i,
    {
        proof {
            assert(chars@.subrange(from as int, i + 1) =~= chars@.subrange(
                from as int,
                i as int,
            ).push(chars@[i as int]));
        }
        text.push(chars[i]);
        i = i + 1;
    }
    text
}

/// The number that an unsigned numeral denotes: digits, after an optional `+`.
pub open spec fn unsigned_value(s: Seq<char>) -> Option<nat> {
    if s.len() > 0 && s[0] == '+' {
        digits_value(s.skip(1))
    } else {
        digits_value(s)
    }
}

/// The number that a signed numeral denotes: digits, after an optional `+` or `-`.
pub open spec fn signed_value(s: Seq<char>) -> Option<int> {
    if s.len() > 0 && s[0] == '-' {
        match digits_value(s.skip(1)) {
            Some(n) => Some(-(n as int)),
            None => None,
        }
    } else {
        match unsigned_value(s) {
            Some(n) => Some(n as int),
            None => None,
        }
    }
}

/// `value`, where it is there and at most `max`.
pub open spec fn bounded(value: Option<nat>, max: nat) -> Option<nat> {
    match value {
        Some(n) => if n <= max {
            Some(n)
        } else {
            None
        },
        None => None,
    }
}

proof fn lemma_digits_prefix(s: Seq<char>, i: int)
    requires
        0 < i <= s.len(),
    ensures
        digits_value(s.take(i)) is None ==> digits_value(s) is None,
        digits_value(s.take(i)) is Some && digits_value(s) is Some ==> digits_value(
            s.take(i),
        )->0 <= digits_value(s)->0,
    decreases s.len() - i,
{
    if i < s.len() {
        assert(s.take(i + 1).drop_last() =~= s.take(i));
        lemma_digits_prefix(s, i + 1);
    } else {
        assert(s.take(i) =~= s);
    }
}

/// Reads `chars[from..]` as a run of digits denoting at most `max`.
fn parse_digits(chars: &Vec<char>, from: usize, max: u64) -> (value: Option<u64>)
    requires
        from <= chars@.len(),
    ensures
        match value {
            Some(n) => bounded(digits_value(chars@.skip(from as int)), max as nat) == Some(n as nat),
            None => bounded(digits_value(chars@.skip(from as int)), max as nat) is None,
        },
{
    let ghost body = chars@.skip(from as int);
    if from == chars.len() {
        return None;
    }
    let mut total: u64 = 0;
    let mut i: usize = from;
    while i < chars.len()
        invariant
            from <= i <= chars@.len(),
            body == chars@.skip(from as int),
            i > from ==> digits_value(body.take(i - from)) == Some(total as nat),
            i == from ==> total == 0,
            total <= max,
        decreases chars@.len() - i,
    {
        let c = chars[i];
        proof {
            assert(body.take(i - from + 1).drop_last() =~= body.take(i - from));
            assert(body.take(i - from + 1).last() == c);
            lemma_digits_prefix(body, i - from + 1);
        }
        if !('0' <= c && c <= '9') {
            return None;
        }
        let digit: u64 = c as u64 - '0' as u64;
        if digit > max || total > (max - digit) / 10 {
            return None;
        }
        total = total * 10 + digit;
        i = i + 1;
    }
    proof {
        assert(body.take(body.len() as int) =~= body);
    }
    Some(total)
}

/// Reads an unsigned numeral that denotes at most `max`.
pub fn parse_unsigned(s: &str, max: u64) -> (value: Option<u64>)
    ensures
        match value {
            Some(n) => bounded(unsigned_value(s@), max as nat) == Some(n as nat),
            None => bounded(unsigned_value(s@), max as nat) is None,
        },
{
    let chars = chars_of(s);
    proof {
        assert(chars@.skip(0) =~= chars@);
    }
    if chars.len() > 0 && chars[0] == '+' {
        parse_digits(&chars, 1, max)
    } else {
        parse_digits(&chars, 0, max)
    }
}

/// Reads a numeral of a size.
pub fn parse_usize(s: &str) -> (value: Option<usize>)
    ensures
        match value {
            Some(n) => bounded(unsigned_value(s@), usize::MAX as nat) == Some(n as nat),
            None => bounded(unsigned_value(s@), usize::MAX as nat) is None,
        },
{
    match parse_unsigned(s, usize::MAX as u64) {
        Some(n) => Some(n as usize),
        None => None,
    }
}

/// `value`, where it is there and fits in 32 signed bits.
pub open spec fn bounded_i32(value: Option<int>) -> Option<int> {
    match value {
        Some(n) => if -0x8000_0000 <= n <= 0x7fff_ffff {
            Some(n)
        } else {
            None
        },
        None => None,
    }
}

/// Reads a signed numeral that fits in 32 bits.
pub fn parse_i32(s: &str) -> (value: Option<i32>)
    ensures
        match value {
            Some(n) => bounded_i32(signed_value(s@)) == Some(n as int),
            None => bounded_i32(signed_value(s@)) is None,
        },
{
    let chars = chars_of(s);
    proof {
        assert(chars@.skip(0) =~= chars@);
    }
    if chars.len() > 0 && chars[0] == '-' {
        match parse_digits(&chars, 1, 0x8000_0000) {
            Some(n) => Some((-(n as i64)) as i32),
            None => None,
        }
    } else if chars.len() > 0 && chars[0] == '+' {
        match parse_digits(&chars, 1, 0x7fff_ffff) {
            Some(n) => Some(n as i32),
            None => None,
        }
    } else {
        match parse_digits(&chars, 0, 0x7fff_ffff) {
            Some(n) => Some(n as i32),
            None => None,
        }
    }
}

/// Reading a numeral gives back the number that was written.
pub proof fn decimal_reads_back(n: nat)
    ensures
        digits_value(decimal(n)) == Some(n),
        unsigned_value(decimal(n)) == Some(n),
        signed_value(decimal(n)) == Some(n as int),
        decimal(n).len() > 0,
        forall|i: int|
            0 <= i < decimal(n).len() ==> '0' <= #[trigger] decimal(n)[i] && decimal(n)[i] <= '9',
    decreases n,
{
    if n >= 10 {
        decimal_reads_back(n / 10);
        assert(decimal(n).drop_last() =~= decimal(n / 10));
        assert(decimal(n).last() == digit_char((n % 10) as int));
    }
}

/// Reading a signed numeral gives back the number that was written.
pub proof fn signed_decimal_reads_back(n: int)
    ensures
        signed_value(signed_decimal(n)) == Some(n),
{
    if n < 0 {
        decimal_reads_back((-n) as nat);
        assert(signed_decimal(n).skip(1) =~= decimal((-n) as nat));
    } else {
        decimal_reads_back(n as nat);
    }
}

/// Whether `pattern` stands in `s` at `i`.
pub open spec fn stands_at(s: Seq<char>, pattern: Seq<char>, i: int) -> bool {
    0 <= i && i + pattern.len() <= s.len() && s.subrange(i, i + pattern.len()) == pattern
}

/// The first place from `i` on at which `pattern` stands in `s`.
pub open spec fn find_from(s: Seq<char>, pattern: Seq<char>, i: nat) -> Option<nat>
    decreases s.len() + 1 - i,
{
    if i + pattern.len() > s.len() || i > s.len() {
        None
    } else if stands_at(s, pattern, i as int) {
        Some(i)
    } else {
        find_from(s, pattern, i + 1)
    }
}

/// The first place at which `pattern` stands in `s`.
pub open spec fn find(s: Seq<char>, pattern: Seq<char>) -> Option<nat> {
    find_from(s, pattern, 0)
}

pub(crate) fn matches_at(chars: &Vec<char>, pattern: &Vec<char>, at: usize) -> (same: bool)
    requires
        at + pattern@.len() <= chars@.len(),
    ensures
        same == stands_at(chars@, pattern@, at as int),
{
    let total: usize = chars.len();
    let mut i: usize = 0;
    while i < pattern.len()
        invariant
            i <= pattern@.len(),
            total == chars@.len(),
            at + pattern@.len() <= total,
            forall|j: int| 0 <= j < i ==> chars@[at + j] == #[trigger] pattern@[j],
        decreases pattern@.len() - i,
    {
        if chars[at + i] != pattern[i] {
            proof {
                assert(chars@.subrange(at as int, at + pattern@.len())[i as int] != pattern@[i as int]);
            }
            return false;
        }
        i = i + 1;
    }
    proof {
        assert(chars@.subrange(at as int, at + pattern@.len()) =~= pattern@);
    }
    true
}

/// The first place at which `pattern` stands in `chars`.
pub fn find_chars(chars: &Vec<char>, pattern: &str) -> (place: Option<usize>)
    ensures
        match place {
            Some(i) => find(chars@, pattern@) == Some(i as nat) && i + pattern@.len()
                <= chars@.len(),
            None => find(chars@, pattern@) is None,
        },
{
    let wanted = chars_of(pattern);
    if wanted.len() > chars.len() {
        return None;
    }
    let last: usize = chars.len() - wanted.len();
    let mut i: usize = 0;
    loop
        invariant
            wanted@ == pattern@,
            i <= last,
            last == chars@.len() - wanted@.len(),
            find(chars@, pattern@) == find_from(chars@, pattern@, i as nat),
        decreases last - i,
    {
        if matches_at(chars, &wanted, i) {
            return Some(i);
        }
        if i == last {
            proof {
                assert(find_from(chars@, pattern@, (i + 1) as nat) is None);
            }
            return None;
        }
        i = i + 1;
    }
}

/// Whether a character is white space.
pub open spec fn is_space(c: char) -> bool {
    let code = c as u32;
    9 <= code <= 13 || code == 0x20 || code == 0x85 || code == 0xa0 || code == 0x1680 || 0x2000
        <= code <= 0x200a || code == 0x2028 || code == 0x2029 || code == 0x202f || code == 0x205f
        || code == 0x3000
}

/// Whether a character is white space.
pub fn is_white_space(c: char) -> (space: bool)
    ensures
        space == is_space(c),
{
    let code: u32 = c as u32;
    (9 <= code && code <= 13) || code == 0x20 || code == 0x85 || code == 0xa0 || code == 0x1680
        || (0x2000 <= code && code <= 0x200a) || code == 0x2028 || code == 0x2029 || code == 0x202f
        || code == 0x205f || code == 0x3000
}

/// The first place from `i` on that holds no white space.
pub open spec fn word_start(s: Seq<char>, i: nat) -> nat
    decreases s.len() - i,
{
    if i < s.len() && is_space(s[i as int]) {
        word_start(s, i + 1)
    } else {
        i
    }
}

/// The first place from `i` on that holds white space, or the end.
pub open spec fn word_end(s: Seq<char>, i: nat) -> nat
    decreases s.len() - i,
{
    if i < s.len() && !is_space(s[i as int]) {
        word_end(s, i + 1)
    } else {
        i
    }
}

/// The words from `i` on: the longest runs of characters that are no white space.
pub open spec fn words_from(s: Seq<char>, i: nat) -> Seq<Seq<char>>
    decreases s.len() - i,
{
    let start = word_start(s, i);
    if i >= s.len() || start >= s.len() {
        Seq::empty()
    } else {
        let end = word_end(s, start);
        if i < end <= s.len() {
            seq![s.subrange(start as int, end as int)] + words_from(s, end)
        } else {
            Seq::empty()
        }
    }
}

/// The words of a text.
pub open spec fn words(s: Seq<char>) -> Seq<Seq<char>> {
    words_from(s, 0)
}

/// Several texts, by what they hold.
pub open spec fn texts(strings: Seq<String>) -> Seq<Seq<char>> {
    strings.map_values(|s: String| s@)
}

proof fn lemma_word_bounds(s: Seq<char>, i: nat)
    requires
        i <= s.len(),
    ensures
        i <= word_start(s, i) <= s.len(),
        i <= word_end(s, i) <= s.len(),
        word_start(s, i) < s.len() ==> !is_space(s[word_start(s, i) as int]),
        i < s.len() && !is_space(s[i as int]) ==> i < word_end(s, i),
    decreases s.len() - i,
{
    if i < s.len() {
        lemma_word_bounds(s, i + 1);
    }
}

/// The words of `chars`.
pub fn split_words(chars: &Vec<char>) -> (list: Vec<String>)
    ensures
        texts(list@) == words(chars@),
{
    let mut list: Vec<String> = Vec::new();
    let mut i: usize = 0;
    proof {
        assert(texts(list@) + words_from(chars@, 0) =~= words(chars@));
    }
    while i < chars.len()
        invariant
            i <= chars@.len(),
            texts(list@) + words_from(chars@, i as nat) == words(chars@),
        decreases chars@.len() - i,
    {
        let ghost from = i as nat;
        proof {
            lemma_word_bounds(chars@, from);
        }
        while i < chars.len() && is_white_space(chars[i])
            invariant
                i <= chars@.len(),
                word_start(chars@, from) == word_start(chars@, i as nat),
                from <= i,
            decreases chars@.len() - i,
        {
            i = i + 1;
        }
        proof {
            assert(word_start(chars@, from) == i);
        }
        if i >= chars.len() {
            proof {
                assert(words_from(chars@, from) =~= Seq::empty());
                assert(texts(list@) + words_from(chars@, from) =~= texts(list@));
            }
            return list;
        }
        let start: usize = i;
        proof {
            lemma_word_bounds(chars@, start as nat);
        }
        while i < chars.len() && !is_white_space(chars[i])
            invariant
                start <= i <= chars@.len(),
                word_end(chars@, start as nat) == word_end(chars@, i as nat),
            decreases chars@.len() - i,
        {
            i = i + 1;
        }
        let ghost before = texts(list@);
        let word = text_of(chars, start, i);
        list.push(word);
        proof {
            assert(word_end(chars@, start as nat) == i);
            let rest = words_from(chars@, i as nat);
            assert(words_from(chars@, from) == seq![word@] + rest);
            assert(texts(list@) =~= before.push(word@));
            assert(texts(list@) + rest =~= before + (seq![word@] + rest));
        }
    }
    proof {
        assert(words_from(chars@, i as nat) =~= Seq::empty());
        assert(texts(list@) + words_from(chars@, i as nat) =~= texts(list@));
    }
    list
}

/// The lower-case form of an ASCII letter; other characters as they are.
pub open spec fn lower_char(c: char) -> char {
    if 'A' <= c && c <= 'Z' {
        ((c as u8) + 32) as char
    } else {
        c
    }
}

/// The text with its ASCII letters in lower case.
pub open spec fn lower_text(s: Seq<char>) -> Seq<char> {
    s.map_values(|c: char| lower_char(c))
}

/// The text with its ASCII letters in lower case.
pub fn to_ascii_lowercase(s: &str) -> (lower: String)
    ensures
        lower@ == lower_text(s@),
{
    let chars = chars_of(s);
    let mut lower = String::new();
    let mut i: usize = 0;
    proof {
        assert(lower@ =~= lower_text(s@).take(0));
    }
    while i < chars.len()
        invariant
            chars@ == s@,
            i <= chars@.len(),
            lower@ == lower_text(s@).take(i as int),
        decreases chars@.len() - i,
    {
        let c = chars[i];
        let mapped = if 'A' <= c && c <= 'Z' {
            (c as u8 + 32) as char
        } else {
            c
        };
        lower.push(mapped);
        proof {
            assert(lower_text(s@).take(i + 1) =~= lower_text(s@).take(i as int).push(
                lower_char(c),
            ));
        }
        i = i + 1;
    }
    proof {
        assert(lower_text(s@).take(i as int) =~= lower_text(s@));
    }
    lower
}

} // verus!
