//! Replica Memory Codec: the remembered replica count is kept as the decimal
//! string value of one fixed metadata annotation key. Encoding renders a
//! count as its canonical decimal string; decoding parses it back, and a
//! value that is not a plain decimal number is a `DecodeError`.

use vstd::prelude::*;
use vstd::string::StrSliceExecFns;
use vstd::string::StringExecFns;

use crate::workload::Annotations;
use crate::workload::lookup;

verus! {

/// The fixed annotation key under which the remembered replica count lives.
pub open spec fn replicas_key() -> Seq<char> {
    "bal.io/target-replicas"@
}

/// Returns the fixed annotation key as an owned string.
pub fn annotation_key() -> (s: String)
    ensures
        s@ == replicas_key(),
{
    String::from_str("bal.io/target-replicas")
}

/// The annotation value was present but is not the decimal form of a
/// non-negative integer that fits the replica count's range.
#[derive(Debug, Clone, Copy, PartialEq, Eq, Structural)]
pub struct DecodeError;

pub open spec fn is_digit(c: char) -> bool {
    '0' as int <= c as int && c as int <= '9' as int
}

pub open spec fn digit_val(c: char) -> nat {
    (c as int - '0' as int) as nat
}

pub open spec fn digit_char(d: nat) -> char {
    if d == 0 {
        '0'
    } else if d == 1 {
        '1'
    } else if d == 2 {
        '2'
    } else if d == 3 {
        '3'
    } else if d == 4 {
        '4'
    } else if d == 5 {
        '5'
    } else if d == 6 {
        '6'
    } else if d == 7 {
        '7'
    } else if d == 8 {
        '8'
    } else {
        '9'
    }
}

/// The canonical decimal string of `n`: no sign, no leading zeros.
pub open spec fn dec_str(n: nat) -> Seq<char>
    decreases n,
{
    if n < 10 {
        seq![digit_char(n)]
    } else {
        dec_str(n / 10).push(digit_char(n % 10))
    }
}

pub open spec fn all_digits(s: Seq<char>) -> bool {
    forall|i: int| 0 <= i < s.len() ==> is_digit(#[trigger] s[i])
}

/// The numeric value of a digit string, read most-significant first.
pub open spec fn dec_value(s: Seq<char>) -> nat
    decreases s.len(),
{
    if s.len() == 0 {
        0
    } else {
        dec_value(s.drop_last()) * 10 + digit_val(s.last())
    }
}

/// A string that decodes to a replica count: non-empty, digits only, and a
/// value that fits in `u32`.
pub open spec fn is_dec_u32(s: Seq<char>) -> bool {
    s.len() > 0 && all_digits(s) && dec_value(s) <= u32::MAX
}

fn digit_literal(d: u32) -> (s: &'static str)
    requires
        d < 10,
    ensures
        s@ == seq![digit_char(d as nat)],
{
    proof {
        reveal_strlit("0");
        reveal_strlit("1");
        reveal_strlit("2");
        reveal_strlit("3");
        reveal_strlit("4");
        reveal_strlit("5");
        reveal_strlit("6");
        reveal_strlit("7");
        reveal_strlit("8");
        reveal_strlit("9");
        assert("0"@ =~= seq!['0']);
        assert("1"@ =~= seq!['1']);
        assert("2"@ =~= seq!['2']);
        assert("3"@ =~= seq!['3']);
        assert("4"@ =~= seq!['4']);
        assert("5"@ =~= seq!['5']);
        assert("6"@ =~= seq!['6']);
        assert("7"@ =~= seq!['7']);
        assert("8"@ =~= seq!['8']);
        assert("9"@ =~= seq!['9']);
    }
    if d == 0 {
        "0"
    } else if d == 1 {
        "1"
    } else if d == 2 {
        "2"
    } else if d == 3 {
        "3"
    } else if d == 4 {
        "4"
    } else if d == 5 {
        "5"
    } else if d == 6 {
        "6"
    } else if d == 7 {
        "7"
    } else if d == 8 {
        "8"
    } else {
        "9"
    }
}

/// Renders a replica count as its canonical decimal string.
pub fn encode(value: u32) -> (s: String)
    ensures
        s@ == dec_str(value as nat),
    decreases value,
{
    if value < 10 {
        digit_literal(value).to_owned()
    } else {
        let mut s = encode(value / 10);
        s.append(digit_literal(value % 10));
        proof {
            assert(dec_str(value as nat) =~= dec_str(value as nat / 10) + seq![
                digit_char(value as nat % 10),
            ]);
        }
        s
    }
}

proof fn lemma_dec_value_step(s: Seq<char>, i: int)
    requires
        0 <= i < s.len(),
    ensures
        dec_value(s.take(i + 1)) == dec_value(s.take(i)) * 10 + digit_val(s[i]),
{
    assert(s.take(i + 1).drop_last() =~= s.take(i));
    assert(s.take(i + 1).last() == s[i]);
}

proof fn lemma_dec_value_prefix_le(s: Seq<char>, i: int)
    requires
        0 <= i <= s.len(),
    ensures
        dec_value(s.take(i)) <= dec_value(s),
    decreases s.len(),
{
    if i == s.len() {
        assert(s.take(i) =~= s);
    } else {
        assert(s.drop_last().take(i) =~= s.take(i));
        lemma_dec_value_prefix_le(s.drop_last(), i);
    }
}

/// Parses the decimal string form of a replica count. Succeeds exactly on
/// non-empty all-digit strings whose value fits in `u32`.
pub fn parse_u32(s: &str) -> (r: Result<u32, DecodeError>)
    ensures
        r is Ok <==> is_dec_u32(s@),
        r matches Ok(v) ==> v as nat == dec_value(s@),
{
    let n: usize = s.unicode_len();
    if n == 0 {
        return Err(DecodeError);
    }
    let mut acc: u32 = 0;
    let mut i: usize = 0;
    while i < n
        invariant
            0 <= i <= n,
            n == s@.len(),
            n > 0,
            forall|j: int| 0 <= j < i ==> is_digit(#[trigger] s@[j]),
            acc as nat == dec_value(s@.take(i as int)),
        decreases n - i,
    {
        let c = s.get_char(i);
        let cv = c as u32;
        if cv < 48 || cv > 57 {
            proof {
                assert(!is_digit(s@[i as int]));
            }
            return Err(DecodeError);
        }
        let d: u32 = cv - 48;
        proof {
            assert(is_digit(s@[i as int]));
            assert(digit_val(s@[i as int]) == d as nat);
            lemma_dec_value_step(s@, i as int);
        }
        if acc > (u32::MAX - d) / 10 {
            proof {
                let m: int = u32::MAX - d;
                assert(m == 10 * (m / 10) + m % 10);
                assert(acc * 10 + d > u32::MAX);
                lemma_dec_value_prefix_le(s@, i as int + 1);
            }
            return Err(DecodeError);
        }
        proof {
            let m: int = u32::MAX - d;
            assert(m == 10 * (m / 10) + m % 10);
            assert(acc * 10 <= m);
        }
        acc = acc * 10 + d;
        i = i + 1;
    }
    proof {
        assert(s@.take(n as int) =~= s@);
    }
    Ok(acc)
}

/// Whether the Replica Memory of an annotation mapping is readable: the
/// fixed key is either absent or carries a decodable value.
pub open spec fn decode_ok(anns: Seq<(Seq<char>, Seq<char>)>) -> bool {
    match lookup(anns, replicas_key()) {
        Some(v) => is_dec_u32(v),
        None => true,
    }
}

/// The remembered replica count of an annotation mapping; an absent key
/// reads as zero.
pub open spec fn decoded(anns: Seq<(Seq<char>, Seq<char>)>) -> nat {
    match lookup(anns, replicas_key()) {
        Some(v) => dec_value(v),
        None => 0,
    }
}

/// Decodes the remembered replica count from the annotation mapping: the
/// parsed value of the fixed key, or zero when the key is absent. A value
/// that is not a plain decimal number is surfaced as a `DecodeError`, never
/// coerced to zero.
pub fn target_replicas(annotations: &Annotations) -> (r: Result<u32, DecodeError>)
    ensures
        r is Ok <==> decode_ok(annotations@),
        r matches Ok(v) ==> v as nat == decoded(annotations@),
{
    let key = annotation_key();
    match annotations.get(&key) {
        None => Ok(0),
        Some(v) => parse_u32(v.as_str()),
    }
}

/// The canonical decimal string of a count is a non-empty digit string and
/// parses back to the same count: the codec round-trips.
pub proof fn lemma_dec_str_roundtrip(n: nat)
    ensures
        dec_str(n).len() >= 1,
        all_digits(dec_str(n)),
        dec_value(dec_str(n)) == n,
    decreases n,
{
    if n < 10 {
        assert(seq![digit_char(n)].drop_last() =~= Seq::<char>::empty());
        assert(dec_value(Seq::<char>::empty()) == 0);
        assert(seq![digit_char(n)].last() == digit_char(n));
        assert(dec_value(seq![digit_char(n)]) == digit_val(digit_char(n)));
        assert(digit_val(digit_char(n)) == n);
        assert(is_digit(digit_char(n)));
    } else {
        lemma_dec_str_roundtrip(n / 10);
        let p = dec_str(n / 10);
        let w = p.push(digit_char(n % 10));
        assert(w.drop_last() =~= p);
        assert(w.last() == digit_char(n % 10));
        assert(digit_val(digit_char(n % 10)) == n % 10);
        assert(dec_value(w) == dec_value(p) * 10 + n % 10);
        assert(n / 10 * 10 + n % 10 == n);
        assert(is_digit(digit_char(n % 10)));
        assert(forall|i: int|
            0 <= i < w.len() ==> is_digit(#[trigger] w[i]) || w[i] == digit_char(n % 10));
    }
}

/// The encoded form is canonical: a count below ten is a single digit, and
/// a positive count never starts with a zero.
pub proof fn lemma_dec_str_canonical(n: nat)
    ensures
        n < 10 ==> dec_str(n).len() == 1,
        n > 0 ==> dec_str(n)[0] != '0',
    decreases n,
{
    if n >= 10 {
        lemma_dec_str_canonical(n / 10);
        lemma_dec_str_roundtrip(n / 10);
        assert(dec_str(n)[0] == dec_str(n / 10)[0]);
    }
}

} // verus!
