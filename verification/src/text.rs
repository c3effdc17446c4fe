//! Text helpers shared by the key codec and the token decoder: splitting on a
//! separator, removing a marker, byte-wise ordering and decimal rendering.
//!
//! Every function states its result over the sequence of characters (or of
//! UTF-8 bytes) of its arguments.
use vstd::prelude::*;
use vstd::std_specs::iter::IteratorSpec;
use vstd::string::*;

verus! {

/// `String::push` of the standard library appends exactly one character to
/// the end of the string and leaves what was there before in place.
pub assume_specification[ String::push ](s: &mut String, ch: char)
    ensures
        final(s)@ == old(s)@.push(ch),
;

/// Position of the first `c` in `s`, or the length of `s` when it holds none.
pub open spec fn first_index(s: Seq<char>, c: char) -> int
    decreases s.len(),
{
    if s.len() == 0 || s[0] == c {
        0
    } else {
        1 + first_index(s.drop_first(), c)
    }
}

/// The `n`-th piece of `s` when it is cut at every `sep`, counting from zero;
/// `None` when `s` holds fewer than `n` separators.
pub open spec fn segment_of(s: Seq<char>, sep: char, n: nat) -> Option<Seq<char>>
    decreases n,
{
    let cut = first_index(s, sep);
    if n == 0 {
        Some(s.subrange(0, cut))
    } else if cut == s.len() {
        None
    } else {
        segment_of(s.subrange(cut + 1, s.len() as int), sep, (n - 1) as nat)
    }
}

/// `s` with every occurrence of `pat` taken out, found from the left and
/// never overlapping. An empty `pat` takes nothing out.
pub open spec fn without(s: Seq<char>, pat: Seq<char>) -> Seq<char>
    decreases s.len(),
{
    if pat.len() == 0 || s.len() < pat.len() {
        s
    } else if s.subrange(0, pat.len() as int) == pat {
        without(s.subrange(pat.len() as int, s.len() as int), pat)
    } else {
        seq![s[0]] + without(s.drop_first(), pat)
    }
}

/// Strict lexicographic order on byte strings: the first differing byte
/// decides, and a proper prefix comes first.
pub open spec fn bytes_less(a: Seq<u8>, b: Seq<u8>) -> bool
    decreases a.len(),
{
    if b.len() == 0 {
        false
    } else if a.len() == 0 {
        true
    } else if a[0] != b[0] {
        a[0] < b[0]
    } else {
        bytes_less(a.drop_first(), b.drop_first())
    }
}

/// Whether `s` begins with `prefix`.
pub open spec fn begins_with(s: Seq<char>, prefix: Seq<char>) -> bool {
    prefix.len() <= s.len() && s.subrange(0, prefix.len() as int) == prefix
}

/// Strict order of two texts by their UTF-8 bytes.
pub open spec fn text_less(a: Seq<char>, b: Seq<char>) -> bool {
    bytes_less(vstd::utf8::encode_utf8(a), vstd::utf8::encode_utf8(b))
}

/// The character that writes the decimal digit `d`.
pub open spec fn digit_char(d: nat) -> char {
    if d == 0 {
        '0'
    } else if d == 1 {
        '1'
    } else if d == 2 {
        '2'
    } else if d == 3 {
        '3'
    } else if d == 4 {
        '4'
    } else if d == 5 {
        '5'
    } else if d == 6 {
        '6'
    } else if d == 7 {
        '7'
    } else if d == 8 {
        '8'
    } else {
        '9'
    }
}

/// Decimal digits of `n`, most significant first, without leading zeros.
pub open spec fn decimal_of(n: nat) -> Seq<char>
    decreases n,
{
    if n < 10 {
        seq![digit_char(n)]
    } else {
        decimal_of(n / 10).push(digit_char(n % 10))
    }
}

/// The digit that a character writes, if it writes one.
pub open spec fn digit_value(c: char) -> Option<nat> {
    if c == '0' {
        Some(0)
    } else if c == '1' {
        Some(1)
    } else if c == '2' {
        Some(2)
    } else if c == '3' {
        Some(3)
    } else if c == '4' {
        Some(4)
    } else if c == '5' {
        Some(5)
    } else if c == '6' {
        Some(6)
    } else if c == '7' {
        Some(7)
    } else if c == '8' {
        Some(8)
    } else if c == '9' {
        Some(9)
    } else {
        None
    }
}

/// The number that a text writes in decimal; `None` for the empty text and
/// for one that holds anything but digits.
pub open spec fn decimal_value(s: Seq<char>) -> Option<nat>
    decreases s.len(),
{
    if s.len() == 0 {
        None
    } else {
        match digit_value(s.last()) {
            None => None,
            Some(d) => if s.len() == 1 {
                Some(d)
            } else {
                match decimal_value(s.drop_last()) {
                    Some(v) => Some(v * 10 + d),
                    None => None,
                }
            },
        }
    }
}

/// A position before which no `c` stands, and which holds `c` or is the end,
/// is `first_index`.
pub proof fn lemma_first_index_is(s: Seq<char>, c: char, i: int)
    requires
        0 <= i <= s.len(),
        forall|j: int| 0 <= j < i ==> s[j] != c,
        i < s.len() ==> s[i] == c,
    ensures
        first_index(s, c) == i,
    decreases s.len(),
{
    if s.len() == 0 || s[0] == c {
        if i > 0 {
            assert(s[0] != c);
        }
    } else {
        let rest = s.drop_first();
        assert forall|j: int| 0 <= j < i - 1 implies rest[j] != c by {
            assert(rest[j] == s[j + 1]);
        }
        if i < s.len() {
            assert(rest[i - 1] == s[i]);
        }
        lemma_first_index_is(rest, c, i - 1);
    }
}

/// A text that lacks a character of the marker holds no marker, so taking
/// the marker out leaves it as it is.
pub proof fn lemma_without_absent(s: Seq<char>, pat: Seq<char>, k: int)
    requires
        0 <= k < pat.len(),
        forall|i: int| 0 <= i < s.len() ==> s[i] != pat[k],
    ensures
        without(s, pat) == s,
    decreases s.len(),
{
    if s.len() < pat.len() {
    } else if s.subrange(0, pat.len() as int) == pat {
        assert(s.subrange(0, pat.len() as int)[k] == s[k]);
    } else {
        let rest = s.drop_first();
        assert forall|i: int| 0 <= i < rest.len() implies rest[i] != pat[k] by {
            assert(rest[i] == s[i + 1]);
        }
        lemma_without_absent(rest, pat, k);
        assert(seq![s[0]] + rest =~= s);
    }
}

/// A marker at the start of a text is taken out.
pub proof fn lemma_without_prefix(s: Seq<char>, pat: Seq<char>)
    requires
        pat.len() > 0,
    ensures
        without(pat + s, pat) == without(s, pat),
{
    let whole = pat + s;
    assert(whole.subrange(0, pat.len() as int) =~= pat);
    assert(whole.subrange(pat.len() as int, whole.len() as int) =~= s);
}

/// Two texts without a separator, joined by one, are the first two pieces
/// of the joined text.
pub proof fn lemma_segments_of_pair(x: Seq<char>, y: Seq<char>, sep: char)
    requires
        forall|i: int| 0 <= i < x.len() ==> x[i] != sep,
        forall|i: int| 0 <= i < y.len() ==> y[i] != sep,
    ensures
        segment_of(x + seq![sep] + y, sep, 0) == Some(x),
        segment_of(x + seq![sep] + y, sep, 1) == Some(y),
{
    let joined = x + seq![sep] + y;
    lemma_first_index_is(joined, sep, x.len() as int);
    assert(joined.subrange(0, x.len() as int) =~= x);
    assert(joined.subrange(x.len() as int + 1, joined.len() as int) =~= y);
    lemma_first_index_is(y, sep, y.len() as int);
    assert(y.subrange(0, y.len() as int) =~= y);
    assert(segment_of(y, sep, 0) == Some(y));
}

/// Neither of two byte strings comes before the other only when they are equal.
pub proof fn lemma_bytes_less_total(a: Seq<u8>, b: Seq<u8>)
    ensures
        bytes_less(a, b) ==> !bytes_less(b, a),
        !bytes_less(a, b) && !bytes_less(b, a) ==> a == b,
    decreases a.len(),
{
    if a.len() == 0 || b.len() == 0 {
        if a.len() == 0 && b.len() == 0 {
            assert(a =~= b);
        }
    } else if a[0] != b[0] {
    } else {
        lemma_bytes_less_total(a.drop_first(), b.drop_first());
        if a.drop_first() == b.drop_first() {
            assert(a =~= seq![a[0]] + a.drop_first());
            assert(b =~= seq![b[0]] + b.drop_first());
        }
    }
}

/// The order of byte strings is transitive.
pub proof fn lemma_bytes_less_transitive(a: Seq<u8>, b: Seq<u8>, c: Seq<u8>)
    requires
        bytes_less(a, b),
        bytes_less(b, c),
    ensures
        bytes_less(a, c),
    decreases a.len(),
{
    if a.len() == 0 {
    } else if a[0] != b[0] {
    } else if b[0] != c[0] {
    } else {
        lemma_bytes_less_transitive(a.drop_first(), b.drop_first(), c.drop_first());
    }
}

/// The order of texts is transitive.
pub proof fn lemma_text_less_transitive(a: Seq<char>, b: Seq<char>, c: Seq<char>)
    requires
        text_less(a, b),
        text_less(b, c),
    ensures
        text_less(a, c),
{
    lemma_bytes_less_transitive(
        vstd::utf8::encode_utf8(a),
        vstd::utf8::encode_utf8(b),
        vstd::utf8::encode_utf8(c),
    );
}

/// Neither of two texts comes before the other only when they are the same text.
pub proof fn lemma_text_less_total(a: Seq<char>, b: Seq<char>)
    ensures
        text_less(a, b) ==> !text_less(b, a),
        !text_less(a, b) && !text_less(b, a) ==> a == b,
{
    lemma_bytes_less_total(vstd::utf8::encode_utf8(a), vstd::utf8::encode_utf8(b));
    vstd::utf8::encode_utf8_decode_utf8(a);
    vstd::utf8::encode_utf8_decode_utf8(b);
}

/// A number is read back from its decimal digits: what `decimal` writes,
/// `parse_decimal` reads as the same number.
pub proof fn law_decimal_round_trip(n: nat)
    ensures
        decimal_value(decimal_of(n)) == Some(n),
    decreases n,
{
    if n < 10 {
        assert(decimal_of(n).last() == digit_char(n));
    } else {
        law_decimal_round_trip(n / 10);
        let digits = decimal_of(n);
        assert(digits.last() == digit_char(n % 10));
        assert(digits.drop_last() =~= decimal_of(n / 10));
        assert(decimal_of(n / 10).len() >= 1) by {
            lemma_decimal_nonempty(n / 10);
        }
    }
}

/// Every number has at least one decimal digit.
pub proof fn lemma_decimal_nonempty(n: nat)
    ensures
        decimal_of(n).len() >= 1,
    decreases n,
{
    if n >= 10 {
        lemma_decimal_nonempty(n / 10);
    }
}

/// A text of digits writes a number no smaller than any of its beginnings
/// does, and a text writes none when one of its beginnings writes none.
pub proof fn lemma_decimal_value_grows(s: Seq<char>, i: int)
    requires
        0 < i <= s.len(),
    ensures
        decimal_value(s.subrange(0, i)) is None ==> decimal_value(s) is None,
        decimal_value(s) is Some ==> decimal_value(s)->0 >= decimal_value(s.subrange(0, i))->0,
    decreases s.len() - i,
{
    if i == s.len() {
        assert(s.subrange(0, i) =~= s);
    } else {
        assert(s.drop_last().subrange(0, i) =~= s.subrange(0, i));
        lemma_decimal_value_grows(s.drop_last(), i);
    }
}

/// The characters of `s`, in order.
pub fn to_chars(s: &str) -> (chars: Vec<char>)
    ensures
        chars@ == s@,
{
    broadcast use vstd::string::group_string_axioms;

    let mut out: Vec<char> = Vec::new();
    let mut it = s.chars();
    loop
        invariant
            out@ + it.remaining() == s@,
            it.obeys_prophetic_iter_laws(),
        ensures
            out@ == s@,
        decreases s@.len() - out@.len(),
    {
        match it.next() {
            Some(c) => {
                out.push(c);
                assert(out@ + it.remaining() =~= s@);
            },
            None => {
                assert(out@ + it.remaining() =~= out@);
                break ;
            },
        }
    }
    out
}

/// The text made of the characters `chars[from..to]`.
pub(crate) fn from_chars(chars: &Vec<char>, from: usize, to: usize) -> (text: String)
    requires
        from <= to <= chars.len(),
    ensures
        text@ == chars@.subrange(from as int, to as int),
{
    let mut out = String::new();
    let mut i: usize = from;
    while i < to
        invariant
            from <= i <= to <= chars.len(),
            out@ == chars@.subrange(from as int, i as int),
        decreases to - i,
    {
        out.push(chars[i]);
        i = i + 1;
        assert(out@ =~= chars@.subrange(from as int, i as int));
    }
    out
}

/// Position of the first `c` at or after `from`, or the length when none follows.
pub(crate) fn find_char(chars: &Vec<char>, from: usize, c: char) -> (at: usize)
    requires
        from <= chars.len(),
    ensures
        from <= at <= chars.len(),
        at == from + first_index(chars@.subrange(from as int, chars.len() as int), c),
{
    let ghost tail = chars@.subrange(from as int, chars.len() as int);
    let mut i: usize = from;
    while i < chars.len() && chars[i] != c
        invariant
            from <= i <= chars.len(),
            tail == chars@.subrange(from as int, chars.len() as int),
            forall|j: int| 0 <= j < i - from ==> tail[j] != c,
        decreases chars.len() - i,
    {
        assert(tail[i - from] == chars@[i as int]);
        i = i + 1;
    }
    proof {
        if i < chars.len() {
            assert(tail[i - from] == chars@[i as int]);
        }
        lemma_first_index_is(tail, c, i - from);
    }
    i
}

/// The `n`-th piece of `s` cut at every `sep`, counting from zero.
pub fn segment(s: &str, sep: char, n: usize) -> (piece: Option<String>)
    ensures
        piece.deep_view() == segment_of(s@, sep, n as nat),
{
    let chars = to_chars(s);
    let len = chars.len();
    let mut start: usize = 0;
    let mut k: usize = 0;
    assert(chars@.subrange(0, len as int) =~= s@);
    loop
        invariant
            chars@ == s@,
            len == chars.len(),
            start <= len,
            k <= n,
            segment_of(s@, sep, n as nat) == segment_of(
                chars@.subrange(start as int, len as int),
                sep,
                (n - k) as nat,
            ),
        decreases n - k,
    {
        let ghost tail = chars@.subrange(start as int, len as int);
        let end = find_char(&chars, start, sep);
        if k == n {
            let piece = from_chars(&chars, start, end);
            assert(piece@ =~= tail.subrange(0, first_index(tail, sep)));
            return Some(piece);
        }
        if end == len {
            return None;
        }
        assert(tail.subrange(first_index(tail, sep) + 1, tail.len() as int) =~= chars@.subrange(
            end + 1,
            len as int,
        ));
        start = end + 1;
        k = k + 1;
    }
}

/// Whether `pat` stands in `chars` at position `at`.
pub(crate) fn matches_at(chars: &Vec<char>, at: usize, pat: &Vec<char>) -> (found: bool)
    requires
        at <= chars.len(),
    ensures
        found == (at + pat.len() <= chars.len() && chars@.subrange(
            at as int,
            at + pat.len(),
        ) == pat@),
{
    if pat.len() > chars.len() - at {
        return false;
    }
    let ghost window = chars@.subrange(at as int, at + pat.len());
    let mut i: usize = 0;
    while i < pat.len()
        invariant
            i <= pat.len(),
            at + pat.len() <= chars.len(),
            window == chars@.subrange(at as int, at + pat.len()),
            forall|j: int| 0 <= j < i ==> window[j] == pat@[j],
        decreases pat.len() - i,
    {
        if chars[at + i] != pat[i] {
            assert(window[i as int] != pat@[i as int]);
            return false;
        }
        assert(window[i as int] == pat@[i as int]);
        i = i + 1;
    }
    assert(window =~= pat@);
    true
}

/// `s` with every occurrence of `pat` taken out.
pub fn remove_all(s: &str, pat: &str) -> (rest: String)
    ensures
        rest@ == without(s@, pat@),
{
    let chars = to_chars(s);
    let marker = to_chars(pat);
    let len = chars.len();
    let mut out = String::new();
    if marker.len() == 0 {
        return from_chars(&chars, 0, len);
    }
    let mut i: usize = 0;
    assert(chars@.subrange(0, len as int) =~= s@);
    while i < len
        invariant
            chars@ == s@,
            marker@ == pat@,
            marker.len() > 0,
            len == chars.len(),
            i <= len,
            without(s@, pat@) == out@ + without(chars@.subrange(i as int, len as int), pat@),
        decreases len - i,
    {
        let ghost tail = chars@.subrange(i as int, len as int);
        if matches_at(&chars, i, &marker) {
            assert(tail.subrange(0, marker.len() as int) =~= chars@.subrange(
                i as int,
                i + marker.len(),
            ));
            assert(tail.subrange(marker.len() as int, tail.len() as int) =~= chars@.subrange(
                i + marker.len(),
                len as int,
            ));
            i = i + marker.len();
        } else {
            proof {
                if tail.len() >= marker.len() {
                    assert(tail.subrange(0, marker.len() as int) =~= chars@.subrange(
                        i as int,
                        i + marker.len(),
                    ));
                }
            }
            if len - i < marker.len() {
                let ghost before = out@;
                let piece = from_chars(&chars, i, len);
                out.append(piece.as_str());
                i = len;
                assert(chars@.subrange(len as int, len as int) =~= Seq::<char>::empty());
                assert(out@ + without(chars@.subrange(len as int, len as int), pat@) =~= before
                    + tail);
            } else {
                let ghost before = out@;
                out.push(chars[i]);
                assert(tail.drop_first() =~= chars@.subrange(i + 1, len as int));
                assert(before.push(chars@[i as int]) + without(tail.drop_first(), pat@) =~= before
                    + (seq![tail[0]] + without(tail.drop_first(), pat@)));
                i = i + 1;
            }
        }
    }
    assert(chars@.subrange(len as int, len as int) =~= Seq::<char>::empty());
    assert(out@ + Seq::<char>::empty() =~= out@);
    out
}

/// Whether `a` comes strictly before `b` in the order of their UTF-8 bytes.
pub fn str_less(a: &str, b: &str) -> (less: bool)
    ensures
        less == text_less(a@, b@),
{
    let x = a.as_bytes();
    let y = b.as_bytes();
    let mut i: usize = 0;
    assert(x@.subrange(0, x@.len() as int) =~= x@);
    assert(y@.subrange(0, y@.len() as int) =~= y@);
    loop
        invariant
            x@ == vstd::utf8::encode_utf8(a@),
            y@ == vstd::utf8::encode_utf8(b@),
            i <= x@.len(),
            i <= y@.len(),
            bytes_less(x@, y@) == bytes_less(
                x@.subrange(i as int, x@.len() as int),
                y@.subrange(i as int, y@.len() as int),
            ),
        decreases x@.len() - i,
    {
        let ghost xs = x@.subrange(i as int, x@.len() as int);
        let ghost ys = y@.subrange(i as int, y@.len() as int);
        if i == y.len() {
            return false;
        }
        if i == x.len() {
            return true;
        }
        assert(xs[0] == x@[i as int] && ys[0] == y@[i as int]);
        if x[i] != y[i] {
            return x[i] < y[i];
        }
        assert(xs.drop_first() =~= x@.subrange(i + 1, x@.len() as int));
        assert(ys.drop_first() =~= y@.subrange(i + 1, y@.len() as int));
        i = i + 1;
    }
}

/// Whether `s` begins with `prefix`.
pub fn starts_with(s: &str, prefix: &str) -> (begins: bool)
    ensures
        begins == begins_with(s@, prefix@),
{
    let chars = to_chars(s);
    let start = to_chars(prefix);
    matches_at(&chars, 0, &start)
}

/// Whether two texts hold the same characters.
pub fn str_eq(a: &str, b: &str) -> (same: bool)
    ensures
        same == (a@ == b@),
{
    let x = String::from_str(a);
    let y = String::from_str(b);
    x == y
}

/// The character that writes the decimal digit `d`.
pub(crate) fn digit(d: u64) -> (c: char)
    requires
        d < 10,
    ensures
        c == digit_char(d as nat),
{
    if d == 0 {
        '0'
    } else if d == 1 {
        '1'
    } else if d == 2 {
        '2'
    } else if d == 3 {
        '3'
    } else if d == 4 {
        '4'
    } else if d == 5 {
        '5'
    } else if d == 6 {
        '6'
    } else if d == 7 {
        '7'
    } else if d == 8 {
        '8'
    } else {
        '9'
    }
}

/// `n` written in decimal.
pub fn decimal(n: u64) -> (text: String)
    ensures
        text@ == decimal_of(n as nat),
    decreases n,
{
    if n < 10 {
        let mut out = String::new();
        out.push(digit(n));
        assert(out@ =~= seq![digit_char(n as nat)]);
        out
    } else {
        let mut out = decimal(n / 10);
        out.push(digit(n % 10));
        out
    }
}

/// The digit that `c` writes, if it writes one.
pub fn digit_of(c: char) -> (d: Option<u64>)
    ensures
        match d {
            Some(value) => value < 10 && digit_value(c) == Some(value as nat),
            None => digit_value(c) is None,
        },
{
    if c == '0' {
        Some(0)
    } else if c == '1' {
        Some(1)
    } else if c == '2' {
        Some(2)
    } else if c == '3' {
        Some(3)
    } else if c == '4' {
        Some(4)
    } else if c == '5' {
        Some(5)
    } else if c == '6' {
        Some(6)
    } else if c == '7' {
        Some(7)
    } else if c == '8' {
        Some(8)
    } else if c == '9' {
        Some(9)
    } else {
        None
    }
}

/// The number that `s` writes in decimal, when it writes one that a `u64`
/// holds.
pub fn parse_decimal(s: &str) -> (number: Option<u64>)
    ensures
        match number {
            Some(n) => decimal_value(s@) == Some(n as nat),
            None => decimal_value(s@) is None || decimal_value(s@)->0 > u64::MAX,
        },
{
    let chars = to_chars(s);
    if chars.len() == 0 {
        return None;
    }
    let mut value: u64 = 0;
    let mut i: usize = 0;
    while i < chars.len()
        invariant
            chars@ == s@,
            i <= chars.len(),
            chars.len() > 0,
            i > 0 ==> decimal_value(chars@.subrange(0, i as int)) == Some(value as nat),
            i == 0 ==> value == 0,
        decreases chars.len() - i,
    {
        let ghost next = chars@.subrange(0, i + 1);
        assert(next.last() == chars@[i as int]);
        assert(next.drop_last() =~= chars@.subrange(0, i as int));
        proof {
            lemma_decimal_value_grows(chars@, i + 1);
        }
        let d = match digit_of(chars[i]) {
            Some(d) => d,
            None => {
                return None;
            },
        };
        if value > (u64::MAX - d) / 10 {
            assert(decimal_value(next) == Some((value * 10 + d) as nat));
            return None;
        }
        value = value * 10 + d;
        i = i + 1;
    }
    assert(chars@.subrange(0, chars@.len() as int) =~= chars@);
    Some(value)
}

} // verus!
