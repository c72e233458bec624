//! Parameter keys of the config file: `table.field` for a scalar and
//! `table.field[i]` for an array element (`optical.refractive_index`,
//! `optical.fresnel_color[0]`).

use vstd::prelude::*;
use vstd::string::*;
use crate::text::decimal_text;

verus! {

/// `s[i]` is the first occurrence of `c` in `s`.
pub open spec fn first_at(s: Seq<char>, c: char, i: int) -> bool {
    &&& 0 <= i < s.len()
    &&& s[i] == c
    &&& forall|j: int| 0 <= j < i ==> s[j] != c
}

/// `s[i]` is the last occurrence of `c` in `s`.
pub open spec fn last_at(s: Seq<char>, c: char, i: int) -> bool {
    &&& 0 <= i < s.len()
    &&& s[i] == c
    &&& forall|j: int| i < j < s.len() ==> s[j] != c
}

/// Position of the first `c` in `s` (meaningful when `s` contains `c`).
pub open spec fn first_pos(s: Seq<char>, c: char) -> int {
    choose|i: int| first_at(s, c, i)
}

/// Position of the last `c` in `s` (meaningful when `s` contains `c`).
pub open spec fn last_pos(s: Seq<char>, c: char) -> int {
    choose|i: int| last_at(s, c, i)
}

pub open spec fn is_digit(c: char) -> bool {
    '0' <= c <= '9'
}

/// Value of a string of decimal digits.
pub open spec fn digits_value(s: Seq<char>) -> int
    decreases s.len(),
{
    if s.len() == 0 {
        0
    } else {
        digits_value(s.drop_last()) * 10 + (s.last() as int - '0' as int)
    }
}

/// The digit part of a number: the text after an optional leading `+`.
pub open spec fn unsigned_digits(s: Seq<char>) -> Seq<char> {
    if s.len() > 0 && s[0] == '+' {
        s.drop_first()
    } else {
        s
    }
}

pub open spec fn all_digits(d: Seq<char>) -> bool {
    forall|i: int| 0 <= i < d.len() ==> is_digit(#[trigger] d[i])
}

/// What `str::parse::<usize>` gives: an optional leading `+`, then at least
/// one decimal digit and nothing else, of a value that fits in `usize`.
pub open spec fn decimal_usize(s: Seq<char>) -> Option<usize> {
    let d = unsigned_digits(s);
    if d.len() > 0 && all_digits(d) && digits_value(d) <= usize::MAX {
        Some(digits_value(d) as usize)
    } else {
        None
    }
}

/// The keys that `parse_key` can slice: where there is a `[`, it is not the
/// last character, and the last character is ASCII (the index text is
/// everything between the first `[` and the last character).
pub open spec fn key_sliceable(key: Seq<char>) -> bool {
    key.contains('[') ==> {
        &&& first_pos(key, '[') < key.len() - 1
        &&& (key.last() as u32) < 128
    }
}

/// Table name, field name and optional array index of a key. The table is
/// everything before the last `.` (empty without one); a `[` starts the index,
/// which is read as a decimal number and taken as 0 when it is not one.
pub open spec fn key_parts(key: Seq<char>) -> (Seq<char>, Seq<char>, Option<usize>) {
    if key.contains('[') {
        let b = first_pos(key, '[');
        let field = key.subrange(0, b);
        let idx = match decimal_usize(key.subrange(b + 1, key.len() - 1)) {
            Some(n) => n,
            None => 0usize,
        };
        if field.contains('.') {
            let d = last_pos(field, '.');
            (key.subrange(0, d), key.subrange(d + 1, b), Some(idx))
        } else {
            (Seq::empty(), field, Some(idx))
        }
    } else if key.contains('.') {
        let d = last_pos(key, '.');
        (key.subrange(0, d), key.subrange(d + 1, key.len() as int), None)
    } else {
        (Seq::empty(), key, None)
    }
}

/// First position of `c` among the first `n` characters of `s`.
fn find_first(s: &str, n: usize, c: char) -> (r: Option<usize>)
    requires
        n <= s@.len(),
    ensures
        match r {
            Some(i) => first_at(s@.subrange(0, n as int), c, i as int),
            None => !s@.subrange(0, n as int).contains(c),
        },
{
    let ghost p = s@.subrange(0, n as int);
    let mut i: usize = 0;
    while i < n
        invariant
            i <= n <= s@.len(),
            p == s@.subrange(0, n as int),
            forall|j: int| 0 <= j < i ==> p[j] != c,
        decreases n - i,
    {
        if s.get_char(i) == c {
            return Some(i);
        }
        i = i + 1;
    }
    None
}

/// Last position of `c` among the first `n` characters of `s`.
fn find_last(s: &str, n: usize, c: char) -> (r: Option<usize>)
    requires
        n <= s@.len(),
    ensures
        match r {
            Some(i) => last_at(s@.subrange(0, n as int), c, i as int),
            None => !s@.subrange(0, n as int).contains(c),
        },
{
    let ghost p = s@.subrange(0, n as int);
    let mut i: usize = n;
    while i > 0
        invariant
            i <= n <= s@.len(),
            p == s@.subrange(0, n as int),
            forall|j: int| i <= j < n ==> p[j] != c,
        decreases i,
    {
        if s.get_char(i - 1) == c {
            return Some(i - 1);
        }
        i = i - 1;
    }
    None
}

proof fn lemma_first_unique(s: Seq<char>, c: char, i: int)
    requires
        first_at(s, c, i),
    ensures
        s.contains(c),
        first_pos(s, c) == i,
{
    assert(s[i] == c);
    let k = first_pos(s, c);
    assert(first_at(s, c, k));
}

proof fn lemma_last_unique(s: Seq<char>, c: char, i: int)
    requires
        last_at(s, c, i),
    ensures
        s.contains(c),
        last_pos(s, c) == i,
{
    assert(s[i] == c);
    let k = last_pos(s, c);
    assert(last_at(s, c, k));
}

proof fn lemma_digits_prefix_le(s: Seq<char>, k: int)
    requires
        0 <= k <= s.len(),
        forall|i: int| 0 <= i < s.len() ==> is_digit(#[trigger] s[i]),
    ensures
        digits_value(s.subrange(0, k)) <= digits_value(s),
    decreases s.len() - k,
{
    if k < s.len() {
        lemma_digits_prefix_le(s, k + 1);
        let p = s.subrange(0, k + 1);
        assert(p.drop_last() =~= s.subrange(0, k));
        assert(is_digit(p.last()));
        assert(digits_value(s.subrange(0, k)) >= 0) by {
            lemma_digits_nonneg(s.subrange(0, k));
        }
    } else {
        assert(s.subrange(0, k) =~= s);
    }
}

proof fn lemma_digits_nonneg(s: Seq<char>)
    requires
        forall|i: int| 0 <= i < s.len() ==> is_digit(#[trigger] s[i]),
    ensures
        digits_value(s) >= 0,
    decreases s.len(),
{
    if s.len() > 0 {
        lemma_digits_nonneg(s.drop_last());
        assert(is_digit(s[s.len() - 1]));
    }
}

proof fn lemma_overflow_rejects(t: Seq<char>, d: Seq<char>, k: int)
    requires
        d == unsigned_digits(t),
        0 < k <= d.len(),
        forall|i: int| 0 <= i < k ==> is_digit(#[trigger] d[i]),
        digits_value(d.subrange(0, k)) > usize::MAX,
    ensures
        decimal_usize(t) is None,
{
    if forall|i: int| 0 <= i < d.len() ==> is_digit(#[trigger] d[i]) {
        lemma_digits_prefix_le(d, k);
    }
}

proof fn lemma_nondigit_rejects(t: Seq<char>, d: Seq<char>, k: int)
    requires
        d == unsigned_digits(t),
        0 <= k < d.len(),
        !is_digit(d[k]),
    ensures
        decimal_usize(t) is None,
{
}

/// `str::parse::<usize>` of the characters `from .. to` of `s`.
fn parse_decimal(s: &str, from: usize, to: usize) -> (r: Option<usize>)
    requires
        from <= to <= s@.len(),
    ensures
        r == decimal_usize(s@.subrange(from as int, to as int)),
{
    let ghost t = s@.subrange(from as int, to as int);
    let mut start = from;
    if from < to && s.get_char(from) == '+' {
        start = from + 1;
    }
    let ghost d = s@.subrange(start as int, to as int);
    assert(d =~= unsigned_digits(t));
    if start == to {
        return None;
    }
    let mut acc: usize = 0;
    let mut j: usize = start;
    while j < to
        invariant
            from <= start <= j <= to <= s@.len(),
            d == s@.subrange(start as int, to as int),
            t == s@.subrange(from as int, to as int),
            d == unsigned_digits(t),
            forall|i: int| 0 <= i < j - start ==> is_digit(#[trigger] d[i]),
            acc as int == digits_value(d.subrange(0, j - start)),
        decreases to - j,
    {
        let c = s.get_char(j);
        if !('0' <= c && c <= '9') {
            proof {
                lemma_nondigit_rejects(t, d, j - start);
            }
            return None;
        }
        let ghost prev = d.subrange(0, j - start);
        let ghost next = d.subrange(0, j - start + 1);
        assert(next.drop_last() =~= prev);
        assert(next.last() == c);
        let digit = (c as u32 - '0' as u32) as usize;
        match acc.checked_mul(10) {
            None => {
                proof {
                    assert(digits_value(next) > usize::MAX);
                    lemma_overflow_rejects(t, d, j - start + 1);
                }
                return None;
            }
            Some(m) => match m.checked_add(digit) {
                None => {
                    proof {
                        assert(digits_value(next) > usize::MAX);
                        lemma_overflow_rejects(t, d, j - start + 1);
                    }
                    return None;
                }
                Some(v) => {
                    acc = v;
                }
            },
        }
        j = j + 1;
    }
    assert(d.subrange(0, j - start) =~= d);
    Some(acc)
}

/// Whether `parse_key` accepts `key` (see `key_sliceable`).
pub fn key_is_sliceable(key: &str) -> (r: bool)
    ensures
        r == key_sliceable(key@),
{
    let len = key.unicode_len();
    proof {
        assert(key@.subrange(0, len as int) =~= key@);
    }
    match find_first(key, len, '[') {
        Some(b) => {
            proof {
                lemma_first_unique(key@, '[', b as int);
            }
            b + 1 < len && (key.get_char(len - 1) as u32) < 128
        },
        None => true,
    }
}

/// Splits a parameter key into table name, field name and array index.
///
/// `"optical.refractive_index"` gives `("optical", "refractive_index", None)`
/// and `"optical.fresnel_color[0]"` gives `("optical", "fresnel_color", Some(0))`.
pub fn parse_key(key: &str) -> (r: (&str, &str, Option<usize>))
    requires
        key_sliceable(key@),
    ensures
        r.0@ == key_parts(key@).0,
        r.1@ == key_parts(key@).1,
        r.2 == key_parts(key@).2,
{
    let len = key.unicode_len();
    proof {
        assert(key@.subrange(0, len as int) =~= key@);
        reveal_strlit("");
    }
    match find_first(key, len, '[') {
        Some(b) => {
            proof {
                lemma_first_unique(key@, '[', b as int);
                assert(key@.subrange(0, b as int).subrange(0, b as int) =~= key@.subrange(0, b as int));
            }
            let idx = match parse_decimal(key, b + 1, len - 1) {
                Some(n) => n,
                None => 0,
            };
            match find_last(key, b, '.') {
                Some(d) => {
                    proof {
                        lemma_last_unique(key@.subrange(0, b as int), '.', d as int);
                    }
                    (key.substring_char(0, d), key.substring_char(d + 1, b), Some(idx))
                },
                None => ("", key.substring_char(0, b), Some(idx)),
            }
        },
        None => {
            match find_last(key, len, '.') {
                Some(d) => {
                    proof {
                        lemma_last_unique(key@, '.', d as int);
                    }
                    (key.substring_char(0, d), key.substring_char(d + 1, len), None)
                },
                None => ("", key, None),
            }
        },
    }
}

/// Law: a scalar key `table.field` parses back into its table and field, with
/// no index.
pub proof fn lemma_scalar_key_round_trip(table: Seq<char>, field: Seq<char>)
    requires
        !table.contains('['),
        !field.contains('['),
        !field.contains('.'),
    ensures
        key_sliceable(table + seq!['.'] + field),
        key_parts(table + seq!['.'] + field) == (table, field, None::<usize>),
{
    let key = table + seq!['.'] + field;
    let t = table.len() as int;
    assert(!key.contains('[')) by {
        if key.contains('[') {
            let k = choose|k: int| 0 <= k < key.len() && key[k] == '[';
            if k < t {
                assert(table[k] == '[');
            } else if k > t {
                assert(field[k - t - 1] == '[');
            }
        }
    }
    assert(last_at(key, '.', t)) by {
        assert forall|j: int| t < j < key.len() implies key[j] != '.' by {
            assert(key[j] == field[j - t - 1]);
        }
    }
    lemma_last_unique(key, '.', t);
    assert(key.subrange(0, t) =~= table);
    assert(key.subrange(t + 1, key.len() as int) =~= field);
}

/// Law: an element key `table.field[n]`, with `n` written in decimal, parses
/// back into its table, its field and the index `n`.
pub proof fn lemma_element_key_round_trip(table: Seq<char>, field: Seq<char>, digits: Seq<char>)
    requires
        !table.contains('['),
        !field.contains('['),
        !field.contains('.'),
        digits.len() > 0,
        all_digits(digits),
        digits_value(digits) <= usize::MAX,
    ensures
        key_sliceable(table + seq!['.'] + field + seq!['['] + digits + seq![']']),
        key_parts(table + seq!['.'] + field + seq!['['] + digits + seq![']']) == (
            table,
            field,
            Some(digits_value(digits) as usize),
        ),
{
    let key = table + seq!['.'] + field + seq!['['] + digits + seq![']'];
    let t = table.len() as int;
    let b = t + 1 + field.len();
    assert(key[b] == '[');
    assert(first_at(key, '[', b)) by {
        assert forall|j: int| 0 <= j < b implies key[j] != '[' by {
            if j < t {
                assert(key[j] == table[j]);
            } else if j > t {
                assert(key[j] == field[j - t - 1]);
            }
        }
    }
    lemma_first_unique(key, '[', b);
    let head = key.subrange(0, b);
    assert(head =~= table + seq!['.'] + field);
    assert(last_at(head, '.', t)) by {
        assert forall|j: int| t < j < head.len() implies head[j] != '.' by {
            assert(head[j] == field[j - t - 1]);
        }
    }
    lemma_last_unique(head, '.', t);
    assert(key.subrange(0, t) =~= table);
    assert(key.subrange(t + 1, b) =~= field);
    assert(key.subrange(b + 1, key.len() - 1) =~= digits);
    assert(unsigned_digits(digits) =~= digits) by {
        assert(is_digit(digits[0]));
    }
}

proof fn lemma_decimal_text_digits(n: nat)
    ensures
        decimal_text(n).len() > 0,
        all_digits(decimal_text(n)),
        digits_value(decimal_text(n)) == n,
    decreases n,
{
    let t = decimal_text(n);
    assert(((n % 10 + 48) as char) as int == n % 10 + 48);
    assert(t.last() == ((n % 10 + 48) as char));
    if n < 10 {
        assert(t.drop_last() =~= Seq::<char>::empty());
        assert(digits_value(t) == digits_value(t.drop_last()) * 10 + (t.last() as int - '0' as int));
    } else {
        lemma_decimal_text_digits(n / 10);
        let h = decimal_text(n / 10);
        assert(t.drop_last() =~= h);
        assert(digits_value(t) == digits_value(h) * 10 + (t.last() as int - '0' as int));
        assert((n / 10) * 10 + n % 10 == n);
        assert forall|i: int| 0 <= i < t.len() implies is_digit(#[trigger] t[i]) by {
            if i < h.len() {
                assert(t[i] == h[i]);
            }
        }
    }
}

/// Law: an index written in decimal reads back as the same number, so the
/// key `table.field[n]` addresses element `n`.
pub proof fn lemma_decimal_index_round_trip(table: Seq<char>, field: Seq<char>, n: usize)
    requires
        !table.contains('['),
        !field.contains('['),
        !field.contains('.'),
    ensures
        key_parts(table + seq!['.'] + field + seq!['['] + decimal_text(n as nat) + seq![']'])
            == (table, field, Some(n)),
{
    lemma_decimal_text_digits(n as nat);
    lemma_element_key_round_trip(table, field, decimal_text(n as nat));
}

} // verus!
