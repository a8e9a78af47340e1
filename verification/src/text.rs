use vstd::prelude::*;
use vstd::string::*;

verus! {

// ---------------------------------------------------------------------------
// Byte-wise lexicographic ordering of names.
//
// Container names are compared by their UTF-8 bytes.  This gives the store a
// deterministic, stable order for its listing without depending on any
// locale-aware collation.
// ---------------------------------------------------------------------------

/// The UTF-8 bytes of an owned string, as a spec-level value.
pub open spec fn name_bytes(s: String) -> Seq<u8> {
    vstd::utf8::encode_utf8(s@)
}

/// Strict lexicographic order on byte strings.
pub open spec fn bytes_lt(a: Seq<u8>, b: Seq<u8>) -> bool
    decreases a.len(),
{
    if b.len() == 0 {
        false
    } else if a.len() == 0 {
        true
    } else if a[0] != b[0] {
        a[0] < b[0]
    } else {
        bytes_lt(a.drop_first(), b.drop_first())
    }
}

pub proof fn lemma_bytes_lt_irreflexive(a: Seq<u8>)
    ensures
        !bytes_lt(a, a),
    decreases a.len(),
{
    if a.len() > 0 {
        lemma_bytes_lt_irreflexive(a.drop_first());
    }
}

pub proof fn lemma_bytes_lt_transitive(a: Seq<u8>, b: Seq<u8>, c: Seq<u8>)
    requires
        bytes_lt(a, b),
        bytes_lt(b, c),
    ensures
        bytes_lt(a, c),
    decreases a.len(),
{
    if c.len() == 0 {
    } else if a.len() == 0 {
    } else if b.len() == 0 {
    } else {
        if a[0] == b[0] && b[0] == c[0] {
            lemma_bytes_lt_transitive(a.drop_first(), b.drop_first(), c.drop_first());
        }
    }
}

/// Three-way outcome of a byte-wise name comparison.
pub enum NameOrder {
    Before,
    Same,
    After,
}

/// Byte-wise three-way comparison of two names.
pub fn compare_names(a: &str, b: &str) -> (o: NameOrder)
    ensures
        o is Before <==> bytes_lt(a.spec_bytes(), b.spec_bytes()),
        o is Same <==> a.spec_bytes() =~= b.spec_bytes(),
        o is After <==> bytes_lt(b.spec_bytes(), a.spec_bytes()),
{
    compare_bytes(a.as_bytes(), b.as_bytes())
}

/// Byte-wise three-way comparison of two byte strings.
pub fn compare_bytes(av: &[u8], bv: &[u8]) -> (o: NameOrder)
    ensures
        o is Before <==> bytes_lt(av@, bv@),
        o is Same <==> av@ =~= bv@,
        o is After <==> bytes_lt(bv@, av@),
{
    let an = av.len();
    let bn = bv.len();
    let mut i: usize = 0;
    loop
        invariant
            i <= an,
            i <= bn,
            an == av@.len(),
            bn == bv@.len(),
            av@.take(i as int) =~= bv@.take(i as int),
        decreases an - i,
    {
        proof {
            lemma_bytes_lt_skip(av@, bv@, i as int);
            lemma_bytes_lt_skip(bv@, av@, i as int);
        }
        if i == an && i == bn {
            proof {
                assert(av@ =~= bv@);
            }
            return NameOrder::Same;
        }
        if i == an {
            proof {
                assert(bytes_lt(av@.skip(i as int), bv@.skip(i as int)));
                assert(!(av@ =~= bv@));
                lemma_bytes_lt_irreflexive(bv@);
                lemma_bytes_lt_asymmetric(av@, bv@);
            }
            return NameOrder::Before;
        }
        if i == bn {
            proof {
                assert(bytes_lt(bv@.skip(i as int), av@.skip(i as int)));
                assert(!(av@ =~= bv@));
                lemma_bytes_lt_asymmetric(bv@, av@);
            }
            return NameOrder::After;
        }
        let ca = av[i];
        let cb = bv[i];
        if ca < cb {
            proof {
                assert(bytes_lt(av@.skip(i as int), bv@.skip(i as int)));
                assert(!(av@ =~= bv@));
                lemma_bytes_lt_asymmetric(av@, bv@);
            }
            return NameOrder::Before;
        }
        if ca > cb {
            proof {
                assert(bytes_lt(bv@.skip(i as int), av@.skip(i as int)));
                assert(!(av@ =~= bv@));
                lemma_bytes_lt_asymmetric(bv@, av@);
            }
            return NameOrder::After;
        }
        proof {
            assert(av@.take(i + 1) =~= bv@.take(i + 1));
        }
        i = i + 1;
    }
}

pub proof fn lemma_bytes_lt_asymmetric(a: Seq<u8>, b: Seq<u8>)
    requires
        bytes_lt(a, b),
    ensures
        !bytes_lt(b, a),
        !(a =~= b),
    decreases a.len(),
{
    lemma_bytes_lt_irreflexive(a);
    if a.len() > 0 && b.len() > 0 && a[0] == b[0] {
        lemma_bytes_lt_asymmetric(a.drop_first(), b.drop_first());
        if a =~= b {
            assert(a.drop_first() =~= b.drop_first());
        }
    } else {
        if a =~= b && a.len() > 0 {
            assert(a[0] == b[0]);
        }
    }
}

/// Once two byte strings agree on a common prefix of length `i`, their
/// order is decided by the remainders.
proof fn lemma_bytes_lt_skip(a: Seq<u8>, b: Seq<u8>, i: int)
    requires
        0 <= i <= a.len(),
        i <= b.len(),
        a.take(i) =~= b.take(i),
    ensures
        bytes_lt(a, b) == bytes_lt(a.skip(i), b.skip(i)),
        (a =~= b) == (a.skip(i) =~= b.skip(i)),
    decreases i,
{
    if a.skip(i) =~= b.skip(i) {
        assert(a.len() == b.len());
        assert forall|j: int| 0 <= j < a.len() implies a[j] == b[j] by {
            if j < i {
                assert(a.take(i)[j] == a[j]);
                assert(b.take(i)[j] == b[j]);
            } else {
                assert(a.skip(i)[j - i] == a[j]);
                assert(b.skip(i)[j - i] == b[j]);
            }
        }
        assert(a =~= b);
    }
    if i == 0 {
        assert(a.skip(0) =~= a);
        assert(b.skip(0) =~= b);
    } else {
        assert(a[0] == b[0]) by {
            assert(a.take(i)[0] == a[0]);
            assert(b.take(i)[0] == b[0]);
        }
        assert(a.drop_first().take(i - 1) =~= b.drop_first().take(i - 1)) by {
            assert forall|j: int| 0 <= j < i - 1 implies a.drop_first()[j] == b.drop_first()[j] by {
                assert(a.take(i)[j + 1] == a[j + 1]);
                assert(b.take(i)[j + 1] == b[j + 1]);
            }
        }
        lemma_bytes_lt_skip(a.drop_first(), b.drop_first(), i - 1);
        assert(a.drop_first().skip(i - 1) =~= a.skip(i));
        assert(b.drop_first().skip(i - 1) =~= b.skip(i));
    }
}

// ---------------------------------------------------------------------------
// Decimal numbers: parsing from bytes, formatting to characters.
// ---------------------------------------------------------------------------

pub open spec fn is_digit(b: u8) -> bool {
    48 <= b <= 57
}

pub open spec fn all_digits(s: Seq<u8>) -> bool {
    forall|j: int| 0 <= j < s.len() ==> is_digit(#[trigger] s[j])
}

/// The numeric value of a digit string, most significant digit first.
pub open spec fn dec_val(s: Seq<u8>) -> int
    decreases s.len(),
{
    if s.len() == 0 {
        0
    } else {
        dec_val(s.drop_last()) * 10 + (s.last() - 48)
    }
}

/// A digit string never denotes a negative value.
proof fn lemma_dec_val_nonneg(s: Seq<u8>)
    requires
        all_digits(s),
    ensures
        dec_val(s) >= 0,
    decreases s.len(),
{
    if s.len() > 0 {
        assert forall|j: int| 0 <= j < s.drop_last().len() implies is_digit(
            #[trigger] s.drop_last()[j],
        ) by {
            assert(s.drop_last()[j] == s[j]);
        }
        lemma_dec_val_nonneg(s.drop_last());
    }
}

/// Extending a digit prefix never lowers the value it denotes.
proof fn lemma_dec_val_prefix_le(s: Seq<u8>, i: int)
    requires
        0 <= i <= s.len(),
        all_digits(s),
    ensures
        dec_val(s.take(i)) <= dec_val(s),
    decreases s.len() - i,
{
    if i < s.len() {
        lemma_dec_val_prefix_le(s, i + 1);
        assert(s.take(i + 1).drop_last() =~= s.take(i));
        assert(s.take(i + 1).last() == s[i]);
        assert(dec_val(s.take(i + 1)) == dec_val(s.take(i)) * 10 + (s[i] - 48));
        assert forall|j: int| 0 <= j < s.take(i).len() implies is_digit(
            #[trigger] s.take(i)[j],
        ) by {
            assert(s.take(i)[j] == s[j]);
        }
        lemma_dec_val_nonneg(s.take(i));
    } else {
        assert(s.take(i) =~= s);
    }
}

/// Parses the suffix `bytes[from..]` as an unsigned decimal integer.
fn parse_digits(bytes: &[u8], from: usize) -> (r: Option<u64>)
    requires
        from <= bytes@.len(),
    ensures
        r is Some <==> (bytes@.skip(from as int).len() > 0 && all_digits(bytes@.skip(from as int))
            && dec_val(bytes@.skip(from as int)) <= u64::MAX),
        r is Some ==> r.unwrap() == dec_val(bytes@.skip(from as int)),
{
    let ghost digits = bytes@.skip(from as int);
    let n = bytes.len();
    if from == n {
        return None;
    }
    let mut acc: u64 = 0;
    let mut i: usize = from;
    loop
        invariant
            from <= i <= n,
            n == bytes@.len(),
            digits == bytes@.skip(from as int),
            all_digits(digits.take(i - from)),
            acc == dec_val(digits.take(i - from)),
            from < n,
        decreases n - i,
    {
        if i == n {
            proof {
                assert(digits.take(i - from) =~= digits);
            }
            return Some(acc);
        }
        let b = bytes[i];
        proof {
            assert(digits[i - from] == bytes@[i as int]);
        }
        if b < 48 || b > 57 {
            return None;
        }
        let d = (b - 48) as u64;
        proof {
            assert(digits.take(i - from + 1).drop_last() =~= digits.take(i - from));
            assert(digits.take(i - from + 1).last() == digits[i - from]);
        }
        if acc > (u64::MAX - d) / 10 {
            proof {
                assert(dec_val(digits.take(i - from + 1)) == acc * 10 + d > u64::MAX);
                if all_digits(digits) {
                    lemma_dec_val_prefix_le(digits, i - from + 1);
                }
            }
            return None;
        }
        acc = acc * 10 + d;
        i = i + 1;
    }
}

/// Parses an unsigned decimal integer, accepting exactly the nonempty
/// all-digit strings whose value fits in a `u64` (the syntax accepted by
/// the standard library's `u64` parser, minus the optional leading `+`).
pub fn parse_u64(s: &str) -> (r: Option<u64>)
    ensures
        r is Some <==> (s.spec_bytes().len() > 0 && all_digits(s.spec_bytes()) && dec_val(
            s.spec_bytes(),
        ) <= u64::MAX),
        r is Some ==> r.unwrap() == dec_val(s.spec_bytes()),
{
    parse_u64_on_bytes(s.as_bytes())
}

/// `parse_u64` on a raw byte string.
pub fn parse_u64_on_bytes(bytes: &[u8]) -> (r: Option<u64>)
    ensures
        r is Some <==> (bytes@.len() > 0 && all_digits(bytes@) && dec_val(bytes@) <= u64::MAX),
        r is Some ==> r.unwrap() == dec_val(bytes@),
{
    proof {
        assert(bytes@.skip(0) =~= bytes@);
    }
    parse_digits(bytes, 0)
}

/// What a signed decimal string denotes, if anything: an optional sign,
/// then at least one digit, with the value in `i64` range.
pub open spec fn spec_parse_i64(s: Seq<u8>) -> Option<i64> {
    if s.len() == 0 {
        None
    } else {
        let neg = s[0] == 45;
        let digits = if s[0] == 45 || s[0] == 43 {
            s.drop_first()
        } else {
            s
        };
        if digits.len() == 0 || !all_digits(digits) {
            None
        } else {
            let v: int = if neg {
                -dec_val(digits)
            } else {
                dec_val(digits)
            };
            if i64::MIN <= v <= i64::MAX {
                Some(v as i64)
            } else {
                None
            }
        }
    }
}

/// Parses a signed decimal integer the way the standard library's `i64`
/// parser does: an optional `+` or `-` sign followed by digits.
pub fn parse_i64(s: &str) -> (r: Option<i64>)
    ensures
        r == spec_parse_i64(s.spec_bytes()),
{
    parse_i64_on_bytes(s.as_bytes())
}

/// `parse_i64` on a raw byte string.
pub fn parse_i64_on_bytes(bytes: &[u8]) -> (r: Option<i64>)
    ensures
        r == spec_parse_i64(bytes@),
{
    let ghost bs = bytes@;
    let n = bytes.len();
    if n == 0 {
        return None;
    }
    let first = bytes[0];
    let neg = first == 45;
    let digits_from: usize = if first == 45 || first == 43 {
        1
    } else {
        0
    };
    let ghost digits = if bs[0] == 45 || bs[0] == 43 {
        bs.drop_first()
    } else {
        bs
    };
    proof {
        assert(digits =~= bs.skip(digits_from as int));
    }
    match parse_digits(bytes, digits_from) {
        None => {
            proof {
                if digits.len() > 0 && all_digits(digits) {
                    // The magnitude exceeded `u64::MAX`, so it is far outside
                    // the `i64` range in either direction.
                    assert(dec_val(digits) > u64::MAX);
                }
            }
            None
        },
        Some(acc) => {
            if neg {
                if acc > 9223372036854775808u64 {
                    None
                } else if acc == 9223372036854775808u64 {
                    Some(i64::MIN)
                } else {
                    Some(-(acc as i64))
                }
            } else {
                if acc > i64::MAX as u64 {
                    None
                } else {
                    Some(acc as i64)
                }
            }
        },
    }
}

/// The decimal digit characters of `n`, most significant first.
pub open spec fn dec_chars(n: nat) -> Seq<char>
    decreases n,
{
    if n < 10 {
        seq![digit_char(n)]
    } else {
        dec_chars(n / 10).push(digit_char(n % 10))
    }
}

pub open spec fn digit_char(d: nat) -> char {
    if d == 0 {
        '0'
    } else if d == 1 {
        '1'
    } else if d == 2 {
        '2'
    } else if d == 3 {
        '3'
    } else if d == 4 {
        '4'
    } else if d == 5 {
        '5'
    } else if d == 6 {
        '6'
    } else if d == 7 {
        '7'
    } else if d == 8 {
        '8'
    } else {
        '9'
    }
}

pub fn digit_str(d: u64) -> (r: &'static str)
    requires
        d < 10,
    ensures
        r@ =~= seq![digit_char(d as nat)],
{
    proof {
        reveal_strlit("0");
        reveal_strlit("1");
        reveal_strlit("2");
        reveal_strlit("3");
        reveal_strlit("4");
        reveal_strlit("5");
        reveal_strlit("6");
        reveal_strlit("7");
        reveal_strlit("8");
        reveal_strlit("9");
    }
    match d {
        0 => "0",
        1 => "1",
        2 => "2",
        3 => "3",
        4 => "4",
        5 => "5",
        6 => "6",
        7 => "7",
        8 => "8",
        _ => "9",
    }
}

/// Renders `n` in decimal, exactly as the standard formatter would.
pub fn u64_to_dec(n: u64) -> (r: String)
    ensures
        r@ =~= dec_chars(n as nat),
    decreases n,
{
    if n < 10 {
        digit_str(n).to_owned()
    } else {
        let mut s = u64_to_dec(n / 10);
        s.append(digit_str(n % 10));
        s
    }
}


/// Byte equality of two strings.
pub fn bytes_same(a: &[u8], b: &[u8]) -> (r: bool)
    ensures
        r == (a@ =~= b@),
{
    match compare_bytes(a, b) {
        NameOrder::Same => true,
        _ => false,
    }
}

/// The pieces of `s` between occurrences of `sep`; empty pieces are kept,
/// as the standard splitter keeps them.
pub open spec fn spec_split(s: Seq<u8>, sep: u8) -> Seq<Seq<u8>>
    decreases s.len(),
{
    match crate::timefmt::spec_find_byte(s, sep) {
        None => seq![s],
        Some(i) => {
            if 0 <= i < s.len() {
                seq![s.take(i)] + spec_split(s.skip(i + 1), sep)
            } else {
                seq![s]
            }
        },
    }
}

/// The nonempty pieces, in order: what remains of a path split on `/`
/// once the empty segments around the slashes are dropped.
pub open spec fn spec_nonempty(parts: Seq<Seq<u8>>) -> Seq<Seq<u8>>
    decreases parts.len(),
{
    if parts.len() == 0 {
        Seq::empty()
    } else {
        let rest = spec_nonempty(parts.drop_last());
        if parts.last().len() == 0 {
            rest
        } else {
            rest.push(parts.last())
        }
    }
}

/// Splits `s` on `sep`, keeping empty pieces.
pub fn split_bytes(s: &[u8], sep: u8) -> (r: Vec<Vec<u8>>)
    ensures
        r@.map_values(|v: Vec<u8>| v@) =~= spec_split(s@, sep),
    decreases s@.len(),
{
    let n = s.len();
    match crate::timefmt::find_byte(s, sep) {
        None => {
            let mut r: Vec<Vec<u8>> = Vec::new();
            r.push(vstd::slice::slice_to_vec(s));
            proof {
                assert(r@.map_values(|v: Vec<u8>| v@) =~= seq![s@]);
            }
            r
        },
        Some(i) => {
            let head = vstd::slice::slice_to_vec(vstd::slice::slice_subrange(s, 0, i));
            let mut tail = split_bytes(vstd::slice::slice_subrange(s, i + 1, n), sep);
            let mut r: Vec<Vec<u8>> = Vec::new();
            r.push(head);
            r.append(&mut tail);
            proof {
                assert(s@.subrange(0, i as int) =~= s@.take(i as int));
                assert(s@.subrange(i + 1, s@.len() as int) =~= s@.skip(i + 1));
                assert(r@.map_values(|v: Vec<u8>| v@) =~= seq![s@.take(i as int)] + spec_split(
                    s@.skip(i + 1),
                    sep,
                ));
            }
            r
        },
    }
}

/// Drops the empty pieces of a split.
pub fn filter_nonempty(parts: Vec<Vec<u8>>) -> (r: Vec<Vec<u8>>)
    ensures
        r@.map_values(|v: Vec<u8>| v@) =~= spec_nonempty(parts@.map_values(|v: Vec<u8>| v@)),
{
    let ghost pv = parts@.map_values(|v: Vec<u8>| v@);
    let n = parts.len();
    let mut r: Vec<Vec<u8>> = Vec::new();
    let mut i: usize = 0;
    let mut parts = parts;
    // Consume from the back so each kept piece is moved, not cloned.
    while i < n
        invariant
            0 <= i <= n,
            n == pv.len(),
            parts@.map_values(|v: Vec<u8>| v@) =~= pv,
            r@.map_values(|v: Vec<u8>| v@) =~= spec_nonempty(pv.take(i as int)),
        decreases n - i,
    {
        proof {
            assert(pv.take(i + 1).drop_last() =~= pv.take(i as int));
            assert(pv.take(i + 1).last() == pv[i as int]);
        }
        if parts[i].len() != 0 {
            let piece = vstd::slice::slice_to_vec(parts[i].as_slice());
            r.push(piece);
        }
        proof {
            assert(r@.map_values(|v: Vec<u8>| v@) =~= spec_nonempty(pv.take(i + 1)));
        }
        i = i + 1;
    }
    proof {
        assert(pv.take(n as int) =~= pv);
    }
    r
}

// ---------------------------------------------------------------------------
// Whitespace tokenization.
// ---------------------------------------------------------------------------

/// ASCII whitespace, as the standard splitter understands it.
pub open spec fn is_ws(b: u8) -> bool {
    b == 32 || b == 9 || b == 10 || b == 13 || b == 11 || b == 12
}

/// First whitespace position in `s`, if any.
pub open spec fn spec_find_ws(s: Seq<u8>) -> Option<int>
    decreases s.len(),
{
    if s.len() == 0 {
        None
    } else if is_ws(s[0]) {
        Some(0)
    } else {
        match spec_find_ws(s.drop_first()) {
            Some(i) => Some(i + 1),
            None => None,
        }
    }
}

/// The maximal whitespace-free runs of `s`, in order.
pub open spec fn spec_tokens(s: Seq<u8>) -> Seq<Seq<u8>>
    decreases s.len(),
{
    if s.len() == 0 {
        Seq::empty()
    } else if is_ws(s[0]) {
        spec_tokens(s.drop_first())
    } else {
        match spec_find_ws(s) {
            None => seq![s],
            Some(e) => {
                if 0 < e <= s.len() {
                    seq![s.take(e)] + spec_tokens(s.skip(e))
                } else {
                    seq![s]
                }
            },
        }
    }
}

fn is_ws_byte(b: u8) -> (r: bool)
    ensures
        r == is_ws(b),
{
    b == 32 || b == 9 || b == 10 || b == 13 || b == 11 || b == 12
}

/// Finds the first whitespace byte.
fn find_ws(bytes: &[u8]) -> (r: Option<usize>)
    ensures
        match r {
            Some(i) => spec_find_ws(bytes@) == Some(i as int) && i < bytes@.len() && is_ws(
                bytes@[i as int],
            ),
            None => spec_find_ws(bytes@) is None,
        },
{
    let n = bytes.len();
    let mut i: usize = 0;
    loop
        invariant
            0 <= i <= n,
            n == bytes@.len(),
            forall|j: int| 0 <= j < i ==> !is_ws(bytes@[j]),
        decreases n - i,
    {
        proof {
            lemma_find_ws_skip(bytes@, i as int);
        }
        if i == n {
            proof {
                assert(bytes@.skip(i as int).len() == 0);
            }
            return None;
        }
        proof {
            assert(bytes@.skip(i as int)[0] == bytes@[i as int]);
        }
        if is_ws_byte(bytes[i]) {
            return Some(i);
        }
        i = i + 1;
    }
}

proof fn lemma_find_ws_skip(s: Seq<u8>, i: int)
    requires
        0 <= i <= s.len(),
        forall|j: int| 0 <= j < i ==> !is_ws(s[j]),
    ensures
        spec_find_ws(s) == match spec_find_ws(s.skip(i)) {
            Some(w) => Some(w + i),
            None => None::<int>,
        },
    decreases i,
{
    if i == 0 {
        assert(s.skip(0) =~= s);
        match spec_find_ws(s) {
            Some(w) => {},
            None => {},
        }
    } else {
        assert(s.len() > 0);
        assert(!is_ws(s[0]));
        assert forall|j: int| 0 <= j < i - 1 implies !is_ws(s.drop_first()[j]) by {
            assert(s.drop_first()[j] == s[j + 1]);
        }
        lemma_find_ws_skip(s.drop_first(), i - 1);
        assert(s.drop_first().skip(i - 1) =~= s.skip(i));
    }
}

/// Splits `bytes` into its whitespace-separated tokens.
pub fn tokenize_ws(bytes: &[u8]) -> (r: Vec<Vec<u8>>)
    ensures
        r@.map_values(|v: Vec<u8>| v@) =~= spec_tokens(bytes@),
    decreases bytes@.len(),
{
    let n = bytes.len();
    if n == 0 {
        let r: Vec<Vec<u8>> = Vec::new();
        proof {
            assert(r@.map_values(|v: Vec<u8>| v@) =~= spec_tokens(bytes@));
        }
        return r;
    }
    if is_ws_byte(bytes[0]) {
        let rest = tokenize_ws(vstd::slice::slice_subrange(bytes, 1, n));
        proof {
            assert(bytes@.subrange(1, n as int) =~= bytes@.drop_first());
        }
        return rest;
    }
    match find_ws(bytes) {
        None => {
            let mut r: Vec<Vec<u8>> = Vec::new();
            r.push(vstd::slice::slice_to_vec(bytes));
            proof {
                assert(r@.map_values(|v: Vec<u8>| v@) =~= seq![bytes@]);
            }
            r
        },
        Some(e) => {
            let head = vstd::slice::slice_to_vec(vstd::slice::slice_subrange(bytes, 0, e));
            let mut tail = tokenize_ws(vstd::slice::slice_subrange(bytes, e, n));
            let mut r: Vec<Vec<u8>> = Vec::new();
            r.push(head);
            r.append(&mut tail);
            proof {
                assert(bytes@.subrange(0, e as int) =~= bytes@.take(e as int));
                assert(bytes@.subrange(e as int, n as int) =~= bytes@.skip(e as int));
                assert(e > 0);
                assert(r@.map_values(|v: Vec<u8>| v@) =~= seq![bytes@.take(e as int)]
                    + spec_tokens(bytes@.skip(e as int)));
            }
            r
        },
    }
}

} // verus!
