//! Fixed-width toast identifiers.
//!
//! A [`ToastId`] is a block of 64 bytes. Ids are drawn from a counter
//! (big-endian encoding of the counter value) or derived from a caller
//! supplied string (its UTF-8 bytes reversed into the tail of the block), and
//! can be rendered as a comma-separated decimal wire string and decoded back.

use vstd::prelude::*;
use vstd::string::StringSliceAdditionalSpecFns;
use vstd::string::StringExecFns;
use vstd::string::StrSliceExecFns;

verus! {

/// Number of bytes in a [`ToastId`].
pub const BYTES_LEN: usize = 64;

/// Identifier of a single toast: a fixed-width block of [`BYTES_LEN`] bytes.
/// Two ids are equal exactly when their byte blocks are equal.
#[derive(Debug, Hash)]
pub struct ToastId {
    bytes: Vec<u8>,
}

impl Clone for ToastId {
    /// The clone holds the same bytes.
    fn clone(&self) -> (r: Self)
        ensures
            r@ == self@,
    {
        let mut bytes: Vec<u8> = Vec::new();
        let mut i: usize = 0;
        while i < self.bytes.len()
            invariant
                0 <= i <= self.bytes@.len(),
                bytes@ == self.bytes@.take(i as int),
            decreases self.bytes@.len() - i,
        {
            bytes.push(self.bytes[i]);
            proof {
                assert(bytes@ =~= self.bytes@.take(i + 1));
            }
            i = i + 1;
        }
        proof {
            assert(self.bytes@.take(self.bytes@.len() as int) =~= self.bytes@);
        }
        ToastId { bytes }
    }
}

impl View for ToastId {
    type V = Seq<u8>;

    closed spec fn view(&self) -> Seq<u8> {
        self.bytes@
    }
}

impl ToastId {
    /// A well-formed id holds exactly [`BYTES_LEN`] bytes. Every constructor
    /// in this module returns a well-formed id.
    pub open spec fn wf(&self) -> bool {
        self@.len() == BYTES_LEN
    }
}

impl PartialEq for ToastId {
    fn eq(&self, other: &ToastId) -> (r: bool) {
        let mut i: usize = 0;
        if self.bytes.len() != other.bytes.len() {
            return false;
        }
        while i < self.bytes.len()
            invariant
                0 <= i <= self.bytes.len(),
                self.bytes.len() == other.bytes.len(),
                forall|j: int| 0 <= j < i ==> self.bytes@[j] == other.bytes@[j],
            decreases self.bytes.len() - i,
        {
            if self.bytes[i] != other.bytes[i] {
                return false;
            }
            i = i + 1;
        }
        proof {
            assert(self.bytes@ =~= other.bytes@);
        }
        true
    }
}

impl vstd::std_specs::cmp::PartialEqSpecImpl for ToastId {
    open spec fn obeys_eq_spec() -> bool {
        true
    }

    open spec fn eq_spec(&self, other: &ToastId) -> bool {
        self@ == other@
    }
}

/// Byte `k` (counting from the least significant end) of the counter value
/// `n`, as the big-endian identifier encoding reads it.
pub open spec fn counter_byte(n: usize, k: nat) -> u8
    decreases k,
{
    if k == 0 {
        (n & 0xff) as u8
    } else {
        counter_byte(n >> 8, (k - 1) as nat)
    }
}

/// The 64-byte block that encodes the counter value `n`: big-endian, so the
/// least significant byte of `n` sits at index 63.
pub open spec fn counter_bytes(n: usize) -> Seq<u8> {
    Seq::new(BYTES_LEN as nat, |i: int| counter_byte(n, (BYTES_LEN - 1 - i) as nat))
}

/// `counter_byte` folds up to a masked shift.
proof fn lemma_counter_byte_shift(n: usize, k: nat)
    requires
        k < 8,
    ensures
        counter_byte(n, k) == ((n >> ((8 * k) as usize)) & 0xff) as u8,
    decreases k,
{
    if k == 0 {
        assert(n >> 0usize == n) by (bit_vector);
    } else {
        lemma_counter_byte_shift(n >> 8, (k - 1) as nat);
        let sh: usize = (8 * (k - 1)) as usize;
        assert((n >> 8usize) >> sh == n >> ((sh + 8) as usize)) by (bit_vector)
            requires
                sh <= 48,
        ;
    }
}

/// Distinct counter values give distinct id blocks: within one process the
/// counter-based generator never hands out the same id twice.
pub proof fn lemma_counter_ids_distinct(a: usize, b: usize)
    requires
        a != b,
    ensures
        counter_bytes(a) != counter_bytes(b),
{
    if counter_bytes(a) == counter_bytes(b) {
        assert forall|k: nat| k < 8 implies counter_byte(a, k) == counter_byte(b, k) by {
            let i = (BYTES_LEN - 1 - k) as int;
            assert(counter_bytes(a)[i] == counter_byte(a, k));
            assert(counter_bytes(b)[i] == counter_byte(b, k));
        }
        lemma_counter_byte_shift(a, 0);
        lemma_counter_byte_shift(a, 1);
        lemma_counter_byte_shift(a, 2);
        lemma_counter_byte_shift(a, 3);
        lemma_counter_byte_shift(a, 4);
        lemma_counter_byte_shift(a, 5);
        lemma_counter_byte_shift(a, 6);
        lemma_counter_byte_shift(a, 7);
        lemma_counter_byte_shift(b, 0);
        lemma_counter_byte_shift(b, 1);
        lemma_counter_byte_shift(b, 2);
        lemma_counter_byte_shift(b, 3);
        lemma_counter_byte_shift(b, 4);
        lemma_counter_byte_shift(b, 5);
        lemma_counter_byte_shift(b, 6);
        lemma_counter_byte_shift(b, 7);
        assert(a == b) by (bit_vector)
            requires
                ((a >> 0usize) & 0xff) as u8 == ((b >> 0usize) & 0xff) as u8,
                ((a >> 8usize) & 0xff) as u8 == ((b >> 8usize) & 0xff) as u8,
                ((a >> 16usize) & 0xff) as u8 == ((b >> 16usize) & 0xff) as u8,
                ((a >> 24usize) & 0xff) as u8 == ((b >> 24usize) & 0xff) as u8,
                ((a >> 32usize) & 0xff) as u8 == ((b >> 32usize) & 0xff) as u8,
                ((a >> 40usize) & 0xff) as u8 == ((b >> 40usize) & 0xff) as u8,
                ((a >> 48usize) & 0xff) as u8 == ((b >> 48usize) & 0xff) as u8,
                ((a >> 56usize) & 0xff) as u8 == ((b >> 56usize) & 0xff) as u8,
        ;
        assert(false);
    }
}

/// Spreads a counter value over a 64-byte block, big-endian: the low byte of
/// `number` lands at index 63 and unused leading bytes are zero.
pub fn usize_to_u8_array(number: usize) -> (r: Vec<u8>)
    ensures
        r@ == counter_bytes(number),
{
    let mut tail: Vec<u8> = Vec::new();
    let mut cur: usize = number;
    let mut i: usize = 0;
    while i < BYTES_LEN
        invariant
            0 <= i <= BYTES_LEN,
            tail@.len() == i,
            forall|j: int| 0 <= j < i ==> tail@[j] == counter_byte(number, j as nat),
            forall|k: nat| counter_byte(cur, k) == counter_byte(number, (k + i) as nat),
        decreases BYTES_LEN - i,
    {
        let b: u8 = (cur & 0xff) as u8;
        proof {
            assert(counter_byte(cur, 0) == (cur & 0xff) as u8);
            assert forall|k: nat|
                counter_byte(cur >> 8, k) == counter_byte(number, (k + i + 1) as nat) by {
                assert(counter_byte(cur, (k + 1) as nat) == counter_byte(cur >> 8, k));
                assert(counter_byte(cur, (k + 1) as nat) == counter_byte(number, (k + i + 1) as nat));
            }
        }
        tail.push(b);
        cur = cur >> 8;
        i = i + 1;
    }
    let mut result: Vec<u8> = Vec::new();
    let mut j: usize = 0;
    while j < BYTES_LEN
        invariant
            0 <= j <= BYTES_LEN,
            tail@.len() == BYTES_LEN,
            forall|k: int| 0 <= k < BYTES_LEN ==> tail@[k] == counter_byte(number, k as nat),
            result@.len() == j,
            forall|k: int| 0 <= k < j ==> result@[k] == counter_byte(number, (BYTES_LEN - 1 - k) as nat),
        decreases BYTES_LEN - j,
    {
        result.push(tail[BYTES_LEN - 1 - j]);
        j = j + 1;
    }
    proof {
        assert(result@ =~= counter_bytes(number));
    }
    result
}

/// The decimal digit `d` (0 to 9) as a character.
pub open spec fn digit_char(d: int) -> char {
    if d == 0 {
        '0'
    } else if d == 1 {
        '1'
    } else if d == 2 {
        '2'
    } else if d == 3 {
        '3'
    } else if d == 4 {
        '4'
    } else if d == 5 {
        '5'
    } else if d == 6 {
        '6'
    } else if d == 7 {
        '7'
    } else if d == 8 {
        '8'
    } else {
        '9'
    }
}

/// The shortest decimal rendering of the byte `b`: one to three digit
/// characters, no leading zero except for `b == 0` itself.
pub open spec fn byte_decimal(b: u8) -> Seq<char> {
    if b < 10 {
        seq![digit_char(b as int)]
    } else if b < 100 {
        seq![digit_char(b as int / 10), digit_char(b as int % 10)]
    } else {
        seq![
            digit_char(b as int / 100),
            digit_char((b as int / 10) % 10),
            digit_char(b as int % 10),
        ]
    }
}

/// The wire rendering of a byte block: the bytes' decimal renderings joined
/// by single commas, in order.
pub open spec fn encode_bytes(bs: Seq<u8>) -> Seq<char>
    decreases bs.len(),
{
    if bs.len() == 0 {
        Seq::empty()
    } else if bs.len() == 1 {
        byte_decimal(bs[0])
    } else {
        byte_decimal(bs[0]) + seq![','] + encode_bytes(bs.drop_first())
    }
}

/// Joining one more byte onto a non-empty block appends a comma and the
/// byte's decimal rendering to the wire string.
proof fn lemma_encode_push(bs: Seq<u8>, b: u8)
    requires
        bs.len() >= 1,
    ensures
        encode_bytes(bs.push(b)) == encode_bytes(bs) + seq![','] + byte_decimal(b),
    decreases bs.len(),
{
    if bs.len() == 1 {
        assert(bs.push(b).drop_first() =~= seq![b]);
        assert(encode_bytes(seq![b]) == byte_decimal(b));
        assert(encode_bytes(bs.push(b)) =~= encode_bytes(bs) + seq![','] + byte_decimal(b));
    } else {
        assert(bs.push(b).drop_first() =~= bs.drop_first().push(b));
        lemma_encode_push(bs.drop_first(), b);
        assert(encode_bytes(bs.push(b)) =~= encode_bytes(bs) + seq![','] + byte_decimal(b));
    }
}

/// The numeric value of a digit character, or -1 for any other character.
pub open spec fn digit_value(c: char) -> int {
    if c == '0' {
        0
    } else if c == '1' {
        1
    } else if c == '2' {
        2
    } else if c == '3' {
        3
    } else if c == '4' {
        4
    } else if c == '5' {
        5
    } else if c == '6' {
        6
    } else if c == '7' {
        7
    } else if c == '8' {
        8
    } else if c == '9' {
        9
    } else {
        -1
    }
}

/// Whether `c` is a decimal digit character.
pub open spec fn is_digit(c: char) -> bool {
    digit_value(c) >= 0
}

/// The numeric value of a run of digit characters, read left to right.
pub open spec fn segment_value(s: Seq<char>) -> int
    decreases s.len(),
{
    if s.len() == 0 {
        0
    } else {
        segment_value(s.drop_last()) * 10 + digit_value(s.last())
    }
}

/// A wire segment that decodes to a byte: at least one character, digits
/// only, and a value of at most 255.
pub open spec fn is_valid_segment(s: Seq<char>) -> bool {
    &&& s.len() >= 1
    &&& forall|i: int| 0 <= i < s.len() ==> is_digit(#[trigger] s[i])
    &&& segment_value(s) <= 255
}

/// Index of the first comma in `t`, or `t.len()` when there is none.
pub open spec fn first_comma(t: Seq<char>) -> int
    decreases t.len(),
{
    if t.len() == 0 {
        0
    } else if t[0] == ',' {
        0
    } else {
        1 + first_comma(t.drop_first())
    }
}

/// `t` split on commas, as Rust's `split(',')` does it: always at least one
/// segment, and an empty `t` yields one empty segment.
pub open spec fn split_commas(t: Seq<char>) -> Seq<Seq<char>>
    decreases t.len(),
{
    let k = first_comma(t);
    if 0 <= k < t.len() {
        seq![t.take(k)] + split_commas(t.skip(k + 1))
    } else {
        seq![t]
    }
}

/// A wire string that decodes to an id: each of its segments that lands in
/// the 64-byte block (segments past the 64th are ignored) is a valid byte
/// segment.
pub open spec fn is_valid_encoding(t: Seq<char>) -> bool {
    forall|j: int|
        0 <= j < split_commas(t).len() && j < BYTES_LEN ==> is_valid_segment(
            #[trigger] split_commas(t)[j],
        )
}

/// The byte block a valid wire string decodes to: segment `j` gives byte
/// `j`, and slots past the last segment stay zero.
pub open spec fn decoded_bytes(t: Seq<char>) -> Seq<u8> {
    Seq::new(
        BYTES_LEN as nat,
        |j: int| if j < split_commas(t).len() {
            segment_value(split_commas(t)[j]) as u8
        } else {
            0u8
        },
    )
}

/// A run of digit characters has a non-negative value.
proof fn lemma_segment_value_nonneg(t: Seq<char>)
    requires
        forall|i: int| 0 <= i < t.len() ==> is_digit(#[trigger] t[i]),
    ensures
        segment_value(t) >= 0,
    decreases t.len(),
{
    if t.len() > 0 {
        lemma_segment_value_nonneg(t.drop_last());
    }
}

/// In a run of digit characters, a prefix is worth no more than the whole.
proof fn lemma_segment_prefix_le(t: Seq<char>, k: int)
    requires
        forall|i: int| 0 <= i < t.len() ==> is_digit(#[trigger] t[i]),
        0 <= k <= t.len(),
    ensures
        segment_value(t.take(k)) <= segment_value(t),
    decreases t.len() - k,
{
    if k == t.len() {
        assert(t.take(k) =~= t);
    } else {
        assert(t.take(k + 1).drop_last() =~= t.take(k));
        assert(t.take(k + 1).last() == t[k]);
        assert(forall|i: int| 0 <= i < t.take(k).len() ==> is_digit(#[trigger] t.take(k)[i]));
        lemma_segment_value_nonneg(t.take(k));
        assert(segment_value(t.take(k + 1)) == segment_value(t.take(k)) * 10 + digit_value(t[k]));
        lemma_segment_prefix_le(t, k + 1);
    }
}

/// Pins `first_comma(t)` to `k` when no comma stands before `k` and a comma
/// (or the end of `t`) stands at `k`.
proof fn lemma_first_comma_at(t: Seq<char>, k: int)
    requires
        0 <= k <= t.len(),
        forall|i: int| 0 <= i < k ==> #[trigger] t[i] != ',',
        k < t.len() ==> t[k] == ',',
    ensures
        first_comma(t) == k,
    decreases t.len(),
{
    if t.len() == 0 {
    } else if t[0] == ',' {
        assert(k == 0);
    } else {
        assert(k >= 1);
        let u = t.drop_first();
        assert(forall|i: int| 0 <= i < k - 1 ==> #[trigger] u[i] != ',');
        lemma_first_comma_at(u, k - 1);
    }
}

/// Reads the byte value of the wire segment `s[start..end]`, or `None` when
/// that segment is not a valid byte segment.
fn parse_segment(s: &str, start: usize, end: usize) -> (r: Option<u8>)
    requires
        start <= end <= s@.len(),
    ensures
        match r {
            Some(v) => is_valid_segment(s@.subrange(start as int, end as int)) && v
                == segment_value(s@.subrange(start as int, end as int)),
            None => !is_valid_segment(s@.subrange(start as int, end as int)),
        },
{
    let ghost seg = s@.subrange(start as int, end as int);
    if start == end {
        return None;
    }
    let mut val: u16 = 0;
    let mut i: usize = start;
    while i < end
        invariant
            start <= i <= end <= s@.len(),
            seg == s@.subrange(start as int, end as int),
            forall|j: int| 0 <= j < i - start ==> is_digit(#[trigger] seg[j]),
            val <= 255,
            val == segment_value(seg.take(i - start)),
        decreases end - i,
    {
        let c = s.get_char(i);
        let cu = c as u32;
        proof {
            assert(seg[i - start] == c);
            assert(seg.take(i - start + 1).drop_last() =~= seg.take(i - start));
            assert(seg.take(i - start + 1).last() == c);
        }
        if cu < 48 || cu > 57 {
            proof {
                assert(!is_digit(c)) by {
                    assert('0' as u32 == 48 && '1' as u32 == 49 && '2' as u32 == 50 && '3' as u32
                        == 51 && '4' as u32 == 52 && '5' as u32 == 53 && '6' as u32 == 54 && '7'
                        as u32 == 55 && '8' as u32 == 56 && '9' as u32 == 57);
                }
            }
            return None;
        }
        let d: u16 = (cu - 48) as u16;
        proof {
            assert(digit_value(c) == cu - 48) by {
                assert('0' as u32 == 48 && '1' as u32 == 49 && '2' as u32 == 50 && '3' as u32 == 51
                    && '4' as u32 == 52 && '5' as u32 == 53 && '6' as u32 == 54 && '7' as u32 == 55
                    && '8' as u32 == 56 && '9' as u32 == 57);
            }
        }
        val = val * 10 + d;
        if val > 255 {
            proof {
                if is_valid_segment(seg) {
                    lemma_segment_prefix_le(seg, i - start + 1);
                }
            }
            return None;
        }
        i = i + 1;
    }
    proof {
        assert(seg.take(end - start) =~= seg);
    }
    Some(val as u8)
}

/// A byte's decimal rendering is a valid wire segment and reads back as the
/// byte's value.
proof fn lemma_byte_decimal_valid(b: u8)
    ensures
        1 <= byte_decimal(b).len() <= 3,
        forall|i: int| 0 <= i < byte_decimal(b).len() ==> is_digit(#[trigger] byte_decimal(b)[i]),
        forall|i: int| 0 <= i < byte_decimal(b).len() ==> #[trigger] byte_decimal(b)[i] != ',',
        segment_value(byte_decimal(b)) == b,
        is_valid_segment(byte_decimal(b)),
{
    let t = byte_decimal(b);
    assert(segment_value(Seq::<char>::empty()) == 0);
    if b < 10 {
        assert(t.drop_last() =~= Seq::<char>::empty());
        assert(t.last() == digit_char(b as int));
        assert(segment_value(t) == digit_value(digit_char(b as int)));
    } else if b < 100 {
        assert(t.drop_last() =~= seq![digit_char(b as int / 10)]);
        assert(t.drop_last().drop_last() =~= Seq::<char>::empty());
        assert(t.drop_last().last() == digit_char(b as int / 10));
        assert(t.last() == digit_char(b as int % 10));
        assert(segment_value(t.drop_last()) == digit_value(digit_char(b as int / 10)));
        assert(segment_value(t) == (b as int / 10) * 10 + (b as int % 10));
    } else {
        let hi = b as int / 100;
        let mid = (b as int / 10) % 10;
        let lo = b as int % 10;
        assert(t.drop_last() =~= seq![digit_char(hi), digit_char(mid)]);
        assert(t.drop_last().drop_last() =~= seq![digit_char(hi)]);
        assert(t.drop_last().drop_last().drop_last() =~= Seq::<char>::empty());
        assert(hi <= 2 && 0 <= mid <= 9 && 0 <= lo <= 9);
        assert(t.drop_last().drop_last().last() == digit_char(hi));
        assert(t.drop_last().last() == digit_char(mid));
        assert(t.last() == digit_char(lo));
        assert(segment_value(t.drop_last().drop_last()) == digit_value(digit_char(hi)));
        assert(segment_value(t.drop_last()) == hi * 10 + digit_value(digit_char(mid)));
        assert(segment_value(t) == (hi * 10 + mid) * 10 + lo);
        assert((b as int / 10) / 10 == b as int / 100) by {
            vstd::arithmetic::div_mod::lemma_div_denominator(b as int, 10, 10);
        }
        assert(b as int / 10 == 10 * ((b as int / 10) / 10) + (b as int / 10) % 10) by {
            vstd::arithmetic::div_mod::lemma_fundamental_div_mod(b as int / 10, 10);
        }
        assert(b as int == 10 * (b as int / 10) + b as int % 10) by {
            vstd::arithmetic::div_mod::lemma_fundamental_div_mod(b as int, 10);
        }
        assert((hi * 10 + mid) * 10 + lo == b);
    }
}

/// Splitting the wire rendering of a byte block on commas recovers exactly
/// the bytes' decimal renderings, in order.
proof fn lemma_split_of_encode(bs: Seq<u8>)
    requires
        bs.len() >= 1,
    ensures
        split_commas(encode_bytes(bs)).len() == bs.len(),
        forall|j: int|
            0 <= j < bs.len() ==> #[trigger] split_commas(encode_bytes(bs))[j] == byte_decimal(
                bs[j],
            ),
    decreases bs.len(),
{
    let t = encode_bytes(bs);
    lemma_byte_decimal_valid(bs[0]);
    let d = byte_decimal(bs[0]);
    if bs.len() == 1 {
        assert(t == d);
        lemma_first_comma_at(t, t.len() as int);
        assert(split_commas(t) == seq![t]);
    } else {
        let rest = encode_bytes(bs.drop_first());
        assert(t == d + seq![','] + rest);
        assert(forall|i: int| 0 <= i < d.len() ==> #[trigger] t[i] != ',');
        assert(t[d.len() as int] == ',');
        lemma_first_comma_at(t, d.len() as int);
        assert(t.take(d.len() as int) =~= d);
        assert(t.skip(d.len() as int + 1) =~= rest);
        assert(split_commas(t) == seq![d] + split_commas(rest));
        lemma_split_of_encode(bs.drop_first());
        assert forall|j: int| 0 <= j < bs.len() implies #[trigger] split_commas(t)[j]
            == byte_decimal(bs[j]) by {
            if j >= 1 {
                assert(split_commas(t)[j] == split_commas(rest)[j - 1]);
                assert(bs.drop_first()[j - 1] == bs[j]);
            }
        }
    }
}

/// Round trip: the wire rendering of a full-width byte block is a valid
/// encoding, and decoding it recovers the block byte for byte. This covers
/// every well-formed id, whether drawn from the counter or derived from a
/// string.
pub proof fn lemma_encode_decode_round_trip(bs: Seq<u8>)
    requires
        bs.len() == BYTES_LEN,
    ensures
        is_valid_encoding(encode_bytes(bs)),
        decoded_bytes(encode_bytes(bs)) == bs,
{
    lemma_split_of_encode(bs);
    assert forall|j: int|
        0 <= j < split_commas(encode_bytes(bs)).len() && j < BYTES_LEN implies is_valid_segment(
        #[trigger] split_commas(encode_bytes(bs))[j],
    ) by {
        lemma_byte_decimal_valid(bs[j]);
    }
    assert forall|j: int| 0 <= j < BYTES_LEN implies #[trigger] decoded_bytes(encode_bytes(bs))[j]
        == bs[j] by {
        lemma_byte_decimal_valid(bs[j]);
    }
    assert(decoded_bytes(encode_bytes(bs)) =~= bs);
}

/// A one-character string slice holding the digit `d`.
fn digit_str(d: u8) -> (r: &'static str)
    requires
        d < 10,
    ensures
        r@ == seq![digit_char(d as int)],
{
    proof {
        reveal_strlit("0");
        reveal_strlit("1");
        reveal_strlit("2");
        reveal_strlit("3");
        reveal_strlit("4");
        reveal_strlit("5");
        reveal_strlit("6");
        reveal_strlit("7");
        reveal_strlit("8");
        reveal_strlit("9");
    }
    match d {
        0 => "0",
        1 => "1",
        2 => "2",
        3 => "3",
        4 => "4",
        5 => "5",
        6 => "6",
        7 => "7",
        8 => "8",
        _ => "9",
    }
}

/// Appends the decimal rendering of `b` to `out`.
fn append_byte_decimal(out: &mut String, b: u8)
    ensures
        final(out)@ == old(out)@ + byte_decimal(b),
{
    if b < 10 {
        out.append(digit_str(b));
    } else if b < 100 {
        out.append(digit_str(b / 10));
        out.append(digit_str(b % 10));
    } else {
        out.append(digit_str(b / 100));
        out.append(digit_str((b / 10) % 10));
        out.append(digit_str(b % 10));
    }
    proof {
        assert(out@ =~= old(out)@ + byte_decimal(b));
    }
}

/// Error of the strict string constructor [`ToastId::try_from_str`].
#[derive(Clone, Copy, Debug, PartialEq, Eq)]
pub enum ToastIdFromStrError {
    /// The source string holds more than [`BYTES_LEN`] bytes.
    StrTooLong,
}

impl ToastIdFromStrError {
    /// A human-readable account of the error.
    pub fn message(&self) -> (r: String)
        ensures
            r@ == "could not parse the str to a ToastId since the string was too long"@,
    {
        match self {
            ToastIdFromStrError::StrTooLong => String::from_str(
                "could not parse the str to a ToastId since the string was too long",
            ),
        }
    }
}

/// The 64-byte block derived from the UTF-8 bytes `sb` of a source string:
/// byte `k` of the string lands at index `63 - k`, so the string fills the
/// tail of the block back to front; at most the first 64 string bytes are
/// used, and the remaining slots stay zero.
pub open spec fn str_id_bytes(sb: Seq<u8>) -> Seq<u8> {
    let m = vstd::math::min(sb.len() as int, BYTES_LEN as int);
    Seq::new(
        BYTES_LEN as nat,
        |i: int| if BYTES_LEN - i <= m {
            sb[BYTES_LEN - 1 - i]
        } else {
            0u8
        },
    )
}

impl ToastId {
    /// Draws a fresh id from the given counter and advances the counter, so
    /// that no id drawn later from the same counter repeats this one.
    pub fn new(counter: &mut usize) -> (r: ToastId)
        requires
            *old(counter) < usize::MAX,
        ensures
            r@ == counter_bytes(*old(counter)),
            r.wf(),
            *final(counter) == *old(counter) + 1,
    {
        let id = ToastId::from_usize(*counter);
        *counter = *counter + 1;
        id
    }

    /// The id whose byte block encodes `number` big-endian.
    pub fn from_usize(number: usize) -> (r: ToastId)
        ensures
            r@ == counter_bytes(number),
            r.wf(),
    {
        ToastId { bytes: usize_to_u8_array(number) }
    }

    /// Renders the id for the dismiss-signal wire format: the bytes' decimal
    /// values joined by commas, such as `"0,0,...,0,7"`.
    pub fn to_decodable_string(&self) -> (r: String)
        ensures
            r@ == encode_bytes(self@),
    {
        let mut out = String::new();
        let mut i: usize = 0;
        while i < self.bytes.len()
            invariant
                0 <= i <= self.bytes.len(),
                out@ == encode_bytes(self.bytes@.take(i as int)),
            decreases self.bytes.len() - i,
        {
            proof {
                if i == 0 {
                    assert(self.bytes@.take(1) =~= seq![self.bytes@[0]]);
                } else {
                    assert(self.bytes@.take(i + 1) =~= self.bytes@.take(i as int).push(
                        self.bytes@[i as int],
                    ));
                    lemma_encode_push(self.bytes@.take(i as int), self.bytes@[i as int]);
                }
            }
            if i > 0 {
                out.append(",");
                proof {
                    reveal_strlit(",");
                    assert(","@ =~= seq![',']);
                }
            }
            append_byte_decimal(&mut out, self.bytes[i]);
            i = i + 1;
        }
        proof {
            assert(self.bytes@.take(self.bytes@.len() as int) =~= self.bytes@);
        }
        out
    }

    /// Reads a wire string back into an id, or `None` when the string is not
    /// a valid encoding; a malformed payload is dropped, never an error.
    pub fn try_decode_string(s: &str) -> (r: Option<ToastId>)
        ensures
            match r {
                Some(id) => is_valid_encoding(s@) && id.wf() && id@ == decoded_bytes(s@),
                None => !is_valid_encoding(s@),
            },
    {
        let n = s.unicode_len();
        let mut bytes: Vec<u8> = Vec::new();
        let mut pos: usize = 0;
        let mut seg_idx: usize = 0;
        let mut exhausted = false;
        proof {
            assert(s@.skip(0) =~= s@);
            assert(split_commas(s@).skip(0) =~= split_commas(s@));
        }
        while seg_idx < BYTES_LEN && !exhausted
            invariant
                n == s@.len(),
                0 <= pos <= n,
                seg_idx <= BYTES_LEN,
                bytes@.len() == seg_idx,
                !exhausted ==> split_commas(s@).skip(seg_idx as int) == split_commas(
                    s@.skip(pos as int),
                ),
                !exhausted ==> split_commas(s@).len() == seg_idx + split_commas(
                    s@.skip(pos as int),
                ).len(),
                exhausted ==> split_commas(s@).len() == seg_idx,
                forall|j: int|
                    0 <= j < seg_idx ==> is_valid_segment(#[trigger] split_commas(s@)[j])
                        && bytes@[j] == segment_value(split_commas(s@)[j]) as u8,
            decreases BYTES_LEN - seg_idx,
        {
            let mut e: usize = pos;
            while e < n && s.get_char(e) != ','
                invariant
                    pos <= e <= n,
                    n == s@.len(),
                    forall|i: int| pos <= i < e ==> s@[i] != ',',
                decreases n - e,
            {
                e = e + 1;
            }
            let ghost rem = s@.skip(pos as int);
            let ghost k = e - pos as int;
            proof {
                assert(forall|i: int| 0 <= i < k ==> rem[i] != ',');
                assert(e < n ==> rem[k] == ',');
                lemma_first_comma_at(rem, k);
                assert(rem.take(k) =~= s@.subrange(pos as int, e as int));
                assert(split_commas(rem).len() >= 1);
                assert(seg_idx < split_commas(s@).len());
                assert(split_commas(s@)[seg_idx as int] == split_commas(s@).skip(
                    seg_idx as int,
                )[0]);
                assert(split_commas(s@)[seg_idx as int] == split_commas(rem)[0]);
                if k < rem.len() {
                    assert(split_commas(rem)[0] == rem.take(k));
                } else {
                    assert(split_commas(rem) == seq![rem]);
                    assert(rem.take(k) =~= rem);
                }
                assert(split_commas(s@)[seg_idx as int] == s@.subrange(pos as int, e as int));
            }
            match parse_segment(s, pos, e) {
                None => {
                    return None;
                },
                Some(v) => {
                    bytes.push(v);
                    if e == n {
                        exhausted = true;
                        proof {
                            assert(split_commas(rem) == seq![rem]);
                            assert(split_commas(s@).len() == seg_idx + 1);
                        }
                    } else {
                        proof {
                            assert(0 <= k < rem.len());
                            assert(split_commas(rem) == seq![rem.take(k)] + split_commas(
                                rem.skip(k + 1),
                            ));
                            assert(rem.skip(k + 1) =~= s@.skip(e + 1));
                            assert(split_commas(s@).len() == seg_idx + 1 + split_commas(
                                s@.skip(e + 1),
                            ).len());
                            assert forall|j: int|
                                #![trigger split_commas(s@.skip(e + 1))[j]]
                                0 <= j < split_commas(s@.skip(e + 1)).len() implies split_commas(
                                s@,
                            ).skip(seg_idx + 1)[j] == split_commas(s@.skip(e + 1))[j] by {
                                assert(split_commas(s@).skip(seg_idx + 1)[j] == split_commas(
                                    s@,
                                )[seg_idx + 1 + j]);
                                assert(split_commas(s@).skip(seg_idx as int)[j + 1]
                                    == split_commas(s@)[seg_idx + 1 + j]);
                                assert(split_commas(rem)[j + 1] == split_commas(
                                    s@.skip(e + 1),
                                )[j]);
                            }
                            assert(split_commas(s@).skip(seg_idx + 1) =~= split_commas(
                                s@.skip(e + 1),
                            ));
                        }
                        pos = e + 1;
                    }
                    seg_idx = seg_idx + 1;
                },
            }
        }
        proof {
            if !exhausted {
                assert(seg_idx == BYTES_LEN);
                assert(split_commas(s@.skip(pos as int)).len() >= 1);
                assert(split_commas(s@).len() >= BYTES_LEN + 1);
            }
        }
        let ghost nsegs = seg_idx as int;
        while bytes.len() < BYTES_LEN
            invariant
                nsegs <= bytes@.len() <= BYTES_LEN,
                forall|j: int|
                    0 <= j < nsegs ==> is_valid_segment(#[trigger] split_commas(s@)[j])
                        && bytes@[j] == segment_value(split_commas(s@)[j]) as u8,
                forall|j: int| nsegs <= j < bytes@.len() ==> bytes@[j] == 0u8,
                nsegs < BYTES_LEN ==> split_commas(s@).len() == nsegs,
                nsegs == BYTES_LEN ==> split_commas(s@).len() >= BYTES_LEN,
            decreases BYTES_LEN - bytes@.len(),
        {
            bytes.push(0u8);
        }
        proof {
            assert(bytes@ =~= decoded_bytes(s@));
        }
        Some(ToastId { bytes })
    }

    /// Reads a valid wire string back into the id it encodes; the total
    /// [`ToastId::try_decode_string`] handles strings that may be malformed.
    pub fn decode_string(s: &str) -> (r: ToastId)
        requires
            is_valid_encoding(s@),
        ensures
            r.wf(),
            r@ == decoded_bytes(s@),
    {
        Self::try_decode_string(s).unwrap()
    }

    /// The id derived from `s`, or an error when `s` holds more than
    /// [`BYTES_LEN`] bytes; the lenient [`ToastId::from_str_truncated`] would
    /// truncate such a string instead.
    pub fn try_from_str(s: &str) -> (r: Result<ToastId, ToastIdFromStrError>)
        ensures
            match r {
                Ok(id) => s.spec_bytes().len() <= BYTES_LEN && id.wf() && id@ == str_id_bytes(
                    s.spec_bytes(),
                ),
                Err(e) => s.spec_bytes().len() > BYTES_LEN && e
                    == ToastIdFromStrError::StrTooLong,
            },
    {
        if s.as_bytes().len() > BYTES_LEN {
            return Err(ToastIdFromStrError::StrTooLong);
        }
        Ok(Self::from_str_truncated(s))
    }

    /// The id derived from the first [`BYTES_LEN`] UTF-8 bytes of `s`: the
    /// string's bytes fill the block back to front, and whatever the string
    /// does not cover stays zero.
    pub fn from_str_truncated(s: &str) -> (r: ToastId)
        ensures
            r.wf(),
            r@ == str_id_bytes(s.spec_bytes()),
    {
        let b = s.as_bytes();
        let m: usize = if b.len() < BYTES_LEN {
            b.len()
        } else {
            BYTES_LEN
        };
        let mut bytes: Vec<u8> = Vec::new();
        let mut i: usize = 0;
        while i < BYTES_LEN
            invariant
                0 <= i <= BYTES_LEN,
                b@ == s.spec_bytes(),
                m == vstd::math::min(b@.len() as int, BYTES_LEN as int),
                bytes@.len() == i,
                forall|k: int| 0 <= k < i ==> bytes@[k] == str_id_bytes(s.spec_bytes())[k],
            decreases BYTES_LEN - i,
        {
            if BYTES_LEN - i <= m {
                bytes.push(b[BYTES_LEN - 1 - i]);
            } else {
                bytes.push(0u8);
            }
            i = i + 1;
        }
        proof {
            assert(bytes@ =~= str_id_bytes(s.spec_bytes()));
        }
        ToastId { bytes }
    }
}

} // verus!

