use vstd::prelude::*;
use vstd::string::*;

verus! {

/// Decimal value of a sequence of ASCII digits.
pub open spec fn digits_value(s: Seq<char>) -> nat
    decreases s.len(),
{
    if s.len() == 0 {
        0
    } else {
        digits_value(s.drop_last()) * 10 + digit_of(s.last())
    }
}

pub open spec fn is_digit(c: char) -> bool {
    '0' <= c && c <= '9'
}

pub open spec fn digit_of(c: char) -> nat {
    (c as nat - '0' as nat) as nat
}

pub open spec fn all_digits(s: Seq<char>) -> bool {
    forall|i: int| 0 <= i < s.len() ==> is_digit(#[trigger] s[i])
}

/// What `u8::from_str` accepts: an optional `+`, then one or more decimal
/// digits whose value is at most 255.
pub open spec fn parse_u8_spec(s: Seq<char>) -> Option<u8> {
    let d = unsigned_part(s);
    if d.len() > 0 && all_digits(d) && digits_value(d) <= 255 {
        Some(digits_value(d) as u8)
    } else {
        None
    }
}

/// The text after an optional leading `+`.
pub open spec fn unsigned_part(s: Seq<char>) -> Seq<char> {
    if s.len() > 0 && s[0] == '+' {
        s.drop_first()
    } else {
        s
    }
}

pub open spec fn digit_char(d: nat) -> char {
    if d == 0 { '0' }
    else if d == 1 { '1' }
    else if d == 2 { '2' }
    else if d == 3 { '3' }
    else if d == 4 { '4' }
    else if d == 5 { '5' }
    else if d == 6 { '6' }
    else if d == 7 { '7' }
    else if d == 8 { '8' }
    else { '9' }
}

/// Shortest decimal text of a byte.
pub open spec fn decimal_u8(n: u8) -> Seq<char> {
    if n < 10 {
        seq![digit_char(n as nat)]
    } else if n < 100 {
        seq![digit_char((n / 10) as nat), digit_char((n % 10) as nat)]
    } else {
        seq![
            digit_char((n / 100) as nat),
            digit_char(((n / 10) % 10) as nat),
            digit_char((n % 10) as nat),
        ]
    }
}

/// The dispatch key of a platform and a category: `"{platform}:{category}"`.
pub open spec fn group_key_spec(media_id: u8, cate: Seq<char>) -> Seq<char> {
    decimal_u8(media_id) + seq![':'] + cate
}

/// Index of the last `:` in `s`, if any.
pub open spec fn last_colon(s: Seq<char>) -> Option<int>
    decreases s.len(),
{
    if s.len() == 0 {
        None
    } else if s.last() == ':' {
        Some(s.len() - 1)
    } else {
        last_colon(s.drop_last())
    }
}

/// Splits a dispatch key on its last colon; the part before it must be a
/// platform id that parses as a byte.
pub open spec fn split_group_key_spec(s: Seq<char>) -> Option<(u8, Seq<char>)> {
    match last_colon(s) {
        None => None,
        Some(i) => match parse_u8_spec(s.subrange(0, i)) {
            None => None,
            Some(m) => Some((m, s.subrange(i + 1, s.len() as int))),
        },
    }
}

proof fn lemma_digits_value_grows(s: Seq<char>, k: int)
    requires
        0 <= k <= s.len(),
    ensures
        digits_value(s.subrange(0, k)) <= digits_value(s),
    decreases s.len(),
{
    if k < s.len() {
        assert(s.drop_last() =~= s.subrange(0, s.len() - 1));
        assert(s.drop_last().subrange(0, k) =~= s.subrange(0, k));
        lemma_digits_value_grows(s.drop_last(), k);
    } else {
        assert(s.subrange(0, k) =~= s);
    }
}

proof fn lemma_last_colon_bounds(s: Seq<char>)
    ensures
        match last_colon(s) {
            None => forall|j: int| 0 <= j < s.len() ==> s[j] != ':',
            Some(i) => 0 <= i < s.len() && s[i] == ':' && forall|j: int|
                i < j < s.len() ==> s[j] != ':',
        },
    decreases s.len(),
{
    if s.len() > 0 && s.last() != ':' {
        let t = s.drop_last();
        lemma_last_colon_bounds(t);
        assert forall|j: int| 0 <= j < t.len() implies t[j] == s[j] by {}
    }
}

proof fn lemma_last_colon_of_suffix_free(s: Seq<char>, i: int)
    requires
        0 <= i < s.len(),
        s[i] == ':',
        forall|j: int| i < j < s.len() ==> s[j] != ':',
    ensures
        last_colon(s) == Some(i),
    decreases s.len(),
{
    if i < s.len() - 1 {
        lemma_last_colon_of_suffix_free(s.drop_last(), i);
    }
}

fn digit_text(d: u8) -> (r: &'static str)
    requires
        d < 10,
    ensures
        r@ == seq![digit_char(d as nat)],
{
    proof {
        reveal_strlit("0");
        reveal_strlit("1");
        reveal_strlit("2");
        reveal_strlit("3");
        reveal_strlit("4");
        reveal_strlit("5");
        reveal_strlit("6");
        reveal_strlit("7");
        reveal_strlit("8");
        reveal_strlit("9");
    }
    match d {
        0 => "0",
        1 => "1",
        2 => "2",
        3 => "3",
        4 => "4",
        5 => "5",
        6 => "6",
        7 => "7",
        8 => "8",
        _ => "9",
    }
}

/// Builds the dispatch key `"{media_id}:{cate}"` under which tasks are grouped.
pub fn format_group_key(media_id: u8, cate: &str) -> (r: String)
    ensures
        r@ == group_key_spec(media_id, cate@),
{
    let mut r = String::new();
    if media_id >= 100 {
        r.append(digit_text(media_id / 100));
    }
    if media_id >= 10 {
        r.append(digit_text((media_id / 10) % 10));
    }
    r.append(digit_text(media_id % 10));
    proof {
        reveal_strlit(":");
    }
    r.append(":");
    r.append(cate);
    assert(r@ =~= group_key_spec(media_id, cate@));
    r
}

/// Parses a platform id the way `u8::from_str` does.
pub fn parse_u8(s: &str) -> (r: Option<u8>)
    ensures
        r == parse_u8_spec(s@),
{
    let n = s.unicode_len();
    let mut i: usize = 0;
    if n > 0 && s.get_char(0) == '+' {
        i = 1;
    }
    let start = i;
    let ghost d = unsigned_part(s@);
    assert(d =~= s@.subrange(start as int, n as int));
    if start == n {
        return None;
    }
    let mut v: u32 = 0;
    while i < n
        invariant
            start <= i <= n,
            n == s@.len(),
            d == s@.subrange(start as int, n as int),
            d == unsigned_part(s@),
            all_digits(d.subrange(0, i - start)),
            v as nat == digits_value(d.subrange(0, i - start)),
            v <= 255,
        decreases n - i,
    {
        let c = s.get_char(i);
        assert(d[i - start] == c);
        if !('0' <= c && c <= '9') {
            assert(!is_digit(d[i - start]));
            assert(!all_digits(d));
            return None;
        }
        proof {
            lemma_digits_step(d, (i - start) as int);
        }
        v = v * 10 + (c as u32 - '0' as u32);
        i = i + 1;
        if v > 255 {
            proof {
                lemma_digits_value_grows(d, (i - start) as int);
            }
            return None;
        }
    }
    assert(d.subrange(0, n - start) =~= d);
    Some(v as u8)
}

proof fn lemma_digits_step(d: Seq<char>, k: int)
    requires
        0 <= k < d.len(),
        all_digits(d.subrange(0, k)),
        is_digit(d[k]),
    ensures
        all_digits(d.subrange(0, k + 1)),
        digits_value(d.subrange(0, k + 1)) == digits_value(d.subrange(0, k)) * 10 + digit_of(d[k]),
{
    let pre = d.subrange(0, k);
    let next = d.subrange(0, k + 1);
    assert(next.drop_last() =~= pre);
    assert forall|j: int| 0 <= j < next.len() implies is_digit(#[trigger] next[j]) by {
        if j < k {
            assert(next[j] == pre[j]);
        }
    }
}

/// Splits a dispatch key into its platform id and its category, at the last
/// colon. `None` when there is no colon or the platform id is not a byte.
pub fn split_group_key(key: &str) -> (r: Option<(u8, String)>)
    ensures
        match (r, split_group_key_spec(key@)) {
            (None, None) => true,
            (Some((m, c)), Some((sm, sc))) => m == sm && c@ == sc,
            _ => false,
        },
{
    let n = key.unicode_len();
    let mut i: usize = n;
    while i > 0 && key.get_char(i - 1) != ':'
        invariant
            i <= n,
            n == key@.len(),
            forall|j: int| i <= j < n ==> key@[j] != ':',
        decreases i,
    {
        i = i - 1;
    }
    proof {
        lemma_last_colon_bounds(key@);
    }
    if i == 0 {
        return None;
    }
    let colon = i - 1;
    proof {
        lemma_last_colon_of_suffix_free(key@, colon as int);
    }
    let head = key.substring_char(0, colon);
    match parse_u8(head) {
        None => None,
        Some(m) => {
            let tail = key.substring_char(colon + 1, n);
            Some((m, tail.to_string()))
        },
    }
}

/// A dispatch key splits back into the platform id and category it was
/// built from, when the category holds no colon.
pub proof fn lemma_group_key_round_trip(media_id: u8, cate: Seq<char>)
    requires
        forall|j: int| 0 <= j < cate.len() ==> cate[j] != ':',
    ensures
        split_group_key_spec(group_key_spec(media_id, cate)) == Some((media_id, cate)),
{
    let d = decimal_u8(media_id);
    let s = group_key_spec(media_id, cate);
    let i = d.len() as int;
    assert(s[i] == ':');
    assert forall|j: int| i < j < s.len() implies s[j] != ':' by {
        assert(s[j] == cate[j - i - 1]);
    }
    lemma_last_colon_of_suffix_free(s, i);
    assert(s.subrange(0, i) =~= d);
    assert(s.subrange(i + 1, s.len() as int) =~= cate);
    lemma_decimal_parses(media_id);
}

/// A key whose category holds a colon does not split: its last colon lies
/// inside the category, and the text before it holds a colon too.
pub proof fn lemma_colon_in_category_never_routes(media_id: u8, cate: Seq<char>)
    requires
        exists|j: int| 0 <= j < cate.len() && cate[j] == ':',
    ensures
        split_group_key_spec(group_key_spec(media_id, cate)) is None,
{
    let d = decimal_u8(media_id);
    let s = group_key_spec(media_id, cate);
    let j = choose|j: int| 0 <= j < cate.len() && cate[j] == ':';
    assert(s[d.len() + 1 + j] == cate[j]);
    lemma_last_colon_bounds(s);
    let i = last_colon(s)->0;
    assert(i >= d.len() + 1 + j);
    let head = s.subrange(0, i);
    assert(head[d.len() as int] == ':');
    assert(head[0] == d[0]);
    if media_id < 10 {
        lemma_digit_char(media_id as nat);
    } else if media_id < 100 {
        lemma_digit_char((media_id / 10) as nat);
    } else {
        lemma_digit_char((media_id / 100) as nat);
    }
    assert(head[0] != '+');
    assert(unsigned_part(head) == head);
    assert(!is_digit(head[d.len() as int]));
    assert(!all_digits(head));
}

proof fn lemma_digit_char(k: nat)
    requires
        k < 10,
    ensures
        is_digit(digit_char(k)),
        digit_of(digit_char(k)) == k,
{
}

proof fn lemma_decimal_parses(n: u8)
    ensures
        parse_u8_spec(decimal_u8(n)) == Some(n),
{
    let d = decimal_u8(n);
    let z = Seq::<char>::empty();
    assert(digits_value(z) == 0);
    lemma_digit_char((n % 10) as nat);
    if n < 10 {
        lemma_digit_char(n as nat);
        assert(d.drop_last() =~= z);
        assert(digits_value(d) == n);
    } else if n < 100 {
        lemma_digit_char((n / 10) as nat);
        let e = seq![digit_char((n / 10) as nat)];
        assert(d.drop_last() =~= e);
        assert(e.drop_last() =~= z);
        assert(digits_value(e) == n / 10);
        assert(digits_value(d) == n);
    } else {
        lemma_digit_char((n / 100) as nat);
        lemma_digit_char(((n / 10) % 10) as nat);
        let e = seq![digit_char((n / 100) as nat), digit_char(((n / 10) % 10) as nat)];
        let f = seq![digit_char((n / 100) as nat)];
        assert(d.drop_last() =~= e);
        assert(e.drop_last() =~= f);
        assert(f.drop_last() =~= z);
        assert(digits_value(f) == n / 100);
        assert(digits_value(e) == n / 10);
        assert(digits_value(d) == n);
    }
    assert(d[0] != '+');
    assert(all_digits(d));
}

} // verus!
