//! The on-disk object frame: `"<type> <decimal-length>\0<payload>"`.
//!
//! `encode_frame` and `parse_frame` give the mathematical meaning of the
//! frame; `split_frame` and `format_dec` are the verified executable sides.

use vstd::prelude::*;

verus! {

/// The ASCII space that separates the type token from the length field.
pub const SPACE_BYTE: u8 = 32;

/// The null byte that separates the header from the payload.
pub const NULL_BYTE: u8 = 0;

/// How a buffer can fail to be a well-formed frame: `Malformed` covers a
/// missing space or null and a bad length field; `WrongLength` a well-formed
/// header whose declared length disagrees with the actual payload size.
#[derive(Debug, Clone, Copy, PartialEq, Eq, Structural)]
pub enum FrameFail {
    Malformed,
    WrongLength,
}

/// An ASCII decimal digit.
pub open spec fn is_digit(b: u8) -> bool {
    48 <= b <= 57
}

/// Every byte of `s` is an ASCII decimal digit.
pub open spec fn all_digits(s: Seq<u8>) -> bool {
    forall|i: int| 0 <= i < s.len() ==> is_digit(#[trigger] s[i])
}

/// The unsigned value of the digit string `s` (most significant first).
pub open spec fn dec_value(s: Seq<u8>) -> int
    decreases s.len(),
{
    if s.len() == 0 {
        0
    } else {
        dec_value(s.drop_last()) * 10 + s.last() - 48
    }
}

/// The canonical decimal digit string of `n`: no leading zeros.
pub open spec fn dec_bytes(n: nat) -> Seq<u8>
    decreases n,
{
    if n < 10 {
        seq![(48 + n) as u8]
    } else {
        dec_bytes(n / 10).push((48 + n % 10) as u8)
    }
}

/// The frame that holds `payload` under the type token `token`.
pub open spec fn encode_frame(token: Seq<u8>, payload: Seq<u8>) -> Seq<u8> {
    token + seq![SPACE_BYTE] + dec_bytes(payload.len()) + seq![NULL_BYTE] + payload
}

/// The meaning of a decompressed object buffer: the token before the first
/// space, the decimal length between that space and the first null after it,
/// and the payload after the null, accepted only when the declared length
/// equals the actual payload size.
pub open spec fn parse_frame(d: Seq<u8>) -> Result<(Seq<u8>, Seq<u8>), FrameFail> {
    match d.index_of_first(SPACE_BYTE) {
        Option::None => Result::Err(FrameFail::Malformed),
        Option::Some(sp) => {
            let rest = d.subrange(sp + 1, d.len() as int);
            match rest.index_of_first(NULL_BYTE) {
                Option::None => Result::Err(FrameFail::Malformed),
                Option::Some(k) => {
                    let digits = rest.subrange(0, k);
                    if digits.len() == 0 || !all_digits(digits) {
                        Result::Err(FrameFail::Malformed)
                    } else if dec_value(digits) != d.len() - (sp + 1 + k) - 1 {
                        Result::Err(FrameFail::WrongLength)
                    } else {
                        Result::Ok(
                            (d.subrange(0, sp), d.subrange(sp + 1 + k + 1, d.len() as int)),
                        )
                    }
                },
            }
        },
    }
}

/// Digit strings denote nonnegative values.
proof fn lemma_dec_value_nonneg(s: Seq<u8>)
    requires
        all_digits(s),
    ensures
        dec_value(s) >= 0,
    decreases s.len(),
{
    if s.len() > 0 {
        assert(all_digits(s.drop_last())) by {
            assert(forall|i: int|
                0 <= i < s.drop_last().len() ==> s.drop_last()[i] == #[trigger] s[i]);
        }
        lemma_dec_value_nonneg(s.drop_last());
    }
}

/// The canonical digit string of `n` is made of digits alone.
proof fn lemma_dec_bytes_digits(n: nat)
    ensures
        dec_bytes(n).len() >= 1,
        all_digits(dec_bytes(n)),
    decreases n,
{
    if n >= 10 {
        lemma_dec_bytes_digits(n / 10);
    }
}

/// Reading the canonical digit string of `n` back gives `n`.
proof fn lemma_dec_bytes_value(n: nat)
    ensures
        dec_value(dec_bytes(n)) == n,
    decreases n,
{
    if n < 10 {
        let s = dec_bytes(n);
        assert(s =~= seq![(48 + n) as u8]);
        assert(s.drop_last() =~= Seq::<u8>::empty());
        assert(s.last() == (48 + n) as u8);
        assert(dec_value(s) == dec_value(s.drop_last()) * 10 + s.last() - 48);
        assert((48 + n) as u8 == 48 + n);
    } else {
        lemma_dec_bytes_value(n / 10);
        assert(dec_bytes(n).drop_last() =~= dec_bytes(n / 10));
        assert(dec_bytes(n).last() == (48 + n % 10) as u8);
        assert((48 + n % 10) as u8 == 48 + n % 10);
        vstd::arithmetic::div_mod::lemma_fundamental_div_mod(n as int, 10);
    }
}

/// The first index at or after `start` where `target` occurs in `data`.
fn find_byte(data: &[u8], target: u8, start: usize) -> (r: Option<usize>)
    requires
        start <= data@.len(),
    ensures
        match r {
            Option::Some(i) => {
                &&& start <= i < data@.len()
                &&& data@[i as int] == target
                &&& forall|j: int| start <= j < i ==> data@[j] != target
            },
            Option::None => forall|j: int| start <= j < data@.len() ==> data@[j] != target,
        },
{
    let mut i: usize = start;
    while i < data.len()
        invariant
            start <= i <= data@.len(),
            forall|j: int| start <= j < i ==> data@[j] != target,
        decreases data@.len() - i,
    {
        if *vstd::slice::slice_index_get(data, i) == target {
            return Some(i);
        }
        i = i + 1;
    }
    None
}

/// If `i` is a first occurrence of `target`, `index_of_first` says so.
proof fn lemma_index_of_first_is(s: Seq<u8>, target: u8, i: int)
    requires
        0 <= i < s.len(),
        s[i] == target,
        forall|j: int| 0 <= j < i ==> s[j] != target,
    ensures
        s.index_of_first(target) == Option::Some(i),
{
    s.index_of_first_ensures(target);
}

/// If `target` does not occur in `s`, `index_of_first` says so.
proof fn lemma_index_of_first_none(s: Seq<u8>, target: u8)
    requires
        forall|j: int| 0 <= j < s.len() ==> s[j] != target,
    ensures
        s.index_of_first(target) == Option::None::<int>,
{
    s.index_of_first_ensures(target);
}

/// The canonical digit string of `n`, as bytes.
pub fn format_dec(n: usize) -> (r: Vec<u8>)
    ensures
        r@ == dec_bytes(n as nat),
    decreases n,
{
    let mut r: Vec<u8> = if n < 10 {
        Vec::new()
    } else {
        format_dec(n / 10)
    };
    r.push(48 + (n % 10) as u8);
    proof {
        assert(r@ =~= dec_bytes(n as nat));
    }
    r
}

/// Splits a decompressed object buffer into its type token and payload,
/// exactly as `parse_frame` reads it.
#[verifier::loop_isolation(false)]
pub fn split_frame(data: &[u8]) -> (r: Result<(Vec<u8>, Vec<u8>), FrameFail>)
    ensures
        match r {
            Result::Ok(p) => parse_frame(data@) == Result::Ok::<_, FrameFail>((p.0@, p.1@)),
            Result::Err(e) => parse_frame(data@) == Result::Err::<(Seq<u8>, Seq<u8>), _>(e),
        },
{
    let ghost d = data@;
    let total = data.len();
    let sp = match find_byte(data, SPACE_BYTE, 0) {
        Some(i) => i,
        None => {
            proof {
                lemma_index_of_first_none(d, SPACE_BYTE);
            }
            return Err(FrameFail::Malformed);
        },
    };
    proof {
        lemma_index_of_first_is(d, SPACE_BYTE, sp as int);
    }
    let ghost rest = d.subrange(sp + 1, d.len() as int);
    let nl = match find_byte(data, NULL_BYTE, sp + 1) {
        Some(i) => i,
        None => {
            proof {
                assert(forall|j: int|
                    0 <= j < rest.len() ==> rest[j] == #[trigger] d[sp + 1 + j]);
                lemma_index_of_first_none(rest, NULL_BYTE);
            }
            return Err(FrameFail::Malformed);
        },
    };
    let ghost k = nl - sp - 1;
    proof {
        assert(forall|j: int| 0 <= j < rest.len() ==> rest[j] == #[trigger] d[sp + 1 + j]);
        assert(rest[k] == NULL_BYTE);
        lemma_index_of_first_is(rest, NULL_BYTE, k);
    }
    let ghost digits = rest.subrange(0, k);
    if nl == sp + 1 {
        // Empty length field.
        assert(digits.len() == 0);
        return Err(FrameFail::Malformed);
    }
    // Accumulate the declared length, watching for overflow: a value that
    // does not fit in usize cannot equal the actual payload size either.
    let mut value: usize = 0;
    let mut overflow = false;
    let mut i: usize = sp + 1;
    while i < nl
        invariant
            sp + 1 <= i <= nl < d.len(),
            d == data@,
            rest == d.subrange(sp + 1, d.len() as int),
            digits == rest.subrange(0, nl - sp - 1),
            forall|j: int| sp + 1 <= j < nl ==> d[j] != NULL_BYTE,
            all_digits(d.subrange(sp + 1, i as int)),
            !overflow ==> value == dec_value(d.subrange(sp + 1, i as int)),
            overflow ==> dec_value(d.subrange(sp + 1, i as int)) > usize::MAX,
        decreases nl - i,
    {
        let b = *vstd::slice::slice_index_get(data, i);
        if b < 48 || b > 57 {
            proof {
                assert(digits[i - sp - 1] == d[i as int]);
                assert(!all_digits(digits));
            }
            return Err(FrameFail::Malformed);
        }
        let ghost prefix = d.subrange(sp + 1, i as int);
        let ghost prefix1 = d.subrange(sp + 1, i + 1int);
        proof {
            assert(prefix1.drop_last() =~= prefix);
            assert(prefix1.last() == d[i as int]);
            assert(dec_value(prefix1) == dec_value(prefix) * 10 + d[i as int] - 48);
            assert(forall|j: int|
                0 <= j < prefix.len() ==> prefix[j] == #[trigger] d[sp + 1 + j]);
        }
        if overflow {
            proof {
                assert(dec_value(prefix) * 10 >= dec_value(prefix) * 1) by (nonlinear_arith)
                    requires dec_value(prefix) >= 0;
                assert(dec_value(prefix1) > usize::MAX);
            }
        } else {
            if value > usize::MAX / 10 || 10 * value > usize::MAX - ((b - 48) as usize) {
                overflow = true;
                proof {
                    assert(dec_value(prefix) * 10 + d[i as int] - 48 > usize::MAX) by (nonlinear_arith)
                        requires
                            dec_value(prefix) == value,
                            48 <= d[i as int] <= 57,
                            value > usize::MAX / 10 || 10 * value > usize::MAX - (d[i as int] - 48),
                            value >= 0;
                }
            } else {
                value = 10 * value + (b - 48) as usize;
            }
        }
        i = i + 1;
    }
    proof {
        assert(d.subrange(sp + 1, nl as int) =~= digits);
        lemma_dec_value_nonneg(digits);
    }
    let actual = total - nl - 1;
    if overflow || value != actual {
        proof {
            assert(dec_value(digits) != d.len() - (sp + 1 + k) - 1);
        }
        return Err(FrameFail::WrongLength);
    }
    let token = vstd::slice::slice_to_vec(vstd::slice::slice_subrange(data, 0, sp));
    let payload = vstd::slice::slice_to_vec(vstd::slice::slice_subrange(data, nl + 1, data.len()));
    proof {
        assert(token@ =~= d.subrange(0, sp as int));
        assert(payload@ =~= d.subrange(sp + 1 + k + 1, d.len() as int));
    }
    Ok((token, payload))
}

/// **Framing round trip.** For every type token without a space or null byte
/// and every payload, parsing the encoded frame gives back exactly that token
/// and payload.
pub proof fn lemma_parse_encode_frame(token: Seq<u8>, payload: Seq<u8>)
    requires
        token.len() > 0,
        !token.contains(SPACE_BYTE),
        !token.contains(NULL_BYTE),
    ensures
        parse_frame(encode_frame(token, payload)) == Result::Ok::<_, FrameFail>((token, payload)),
{
    let e = encode_frame(token, payload);
    let db = dec_bytes(payload.len());
    let tl = token.len() as int;
    lemma_dec_bytes_digits(payload.len());
    lemma_dec_bytes_value(payload.len());
    assert(e.len() == tl + 1 + db.len() + 1 + payload.len());
    assert(e[tl] == SPACE_BYTE);
    assert(forall|j: int| 0 <= j < tl ==> e[j] == #[trigger] token[j]);
    assert(forall|j: int| 0 <= j < tl ==> e[j] != SPACE_BYTE);
    lemma_index_of_first_is(e, SPACE_BYTE, tl);
    let rest = e.subrange(tl + 1, e.len() as int);
    assert(rest =~= db + seq![NULL_BYTE] + payload);
    let k = db.len() as int;
    assert(rest[k] == NULL_BYTE);
    assert(forall|j: int| 0 <= j < k ==> rest[j] == #[trigger] db[j]);
    assert(forall|j: int| 0 <= j < k ==> rest[j] != NULL_BYTE);
    lemma_index_of_first_is(rest, NULL_BYTE, k);
    let digits = rest.subrange(0, k);
    assert(digits =~= db);
    assert(dec_value(digits) == payload.len());
    assert(e.len() - (tl + 1 + k) - 1 == payload.len());
    assert(e.subrange(0, tl) =~= token);
    assert(e.subrange(tl + 1 + k + 1, e.len() as int) =~= payload);
}

} // verus!
