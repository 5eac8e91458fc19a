//! Text primitives on characters: whitespace-separated fields and unsigned
//! decimal numbers, read as std's `str::split_whitespace` and
//! `str::parse::<u64>` read them.

use vstd::prelude::*;

verus! {

/// `c` has Unicode's White_Space property (what `char::is_whitespace` tests).
pub open spec fn is_white_space(c: char) -> bool {
    let u = c as u32;
    ||| 0x9 <= u <= 0xD
    ||| u == 0x20
    ||| u == 0x85
    ||| u == 0xA0
    ||| u == 0x1680
    ||| 0x2000 <= u <= 0x200A
    ||| u == 0x2028
    ||| u == 0x2029
    ||| u == 0x202F
    ||| u == 0x205F
    ||| u == 0x3000
}

/// The fields of `s` so far, and the field being read, after the prefix `s`.
pub open spec fn fields_and_pending(s: Seq<char>) -> (Seq<Seq<char>>, Seq<char>)
    decreases s.len(),
{
    if s.len() == 0 {
        (seq![], seq![])
    } else {
        let (done, pending) = fields_and_pending(s.drop_last());
        if is_white_space(s.last()) {
            if pending.len() > 0 {
                (done.push(pending), seq![])
            } else {
                (done, pending)
            }
        } else {
            (done, pending.push(s.last()))
        }
    }
}

/// The maximal runs of non-white-space characters of `s`, in order.
pub open spec fn whitespace_fields(s: Seq<char>) -> Seq<Seq<char>> {
    let (done, pending) = fields_and_pending(s);
    if pending.len() > 0 {
        done.push(pending)
    } else {
        done
    }
}

/// Every whitespace-separated field is non-empty and holds no white space.
pub proof fn lemma_fields_are_nonempty_words(s: Seq<char>)
    ensures
        forall|i: int|
            #![trigger whitespace_fields(s)[i]]
            0 <= i < whitespace_fields(s).len() ==> {
                &&& whitespace_fields(s)[i].len() > 0
                &&& forall|j: int|
                    0 <= j < whitespace_fields(s)[i].len() ==> !is_white_space(
                        #[trigger] whitespace_fields(s)[i][j],
                    )
            },
{
    lemma_fields_and_pending_words(s);
    let (done, pending) = fields_and_pending(s);
    let f = whitespace_fields(s);
    if pending.len() > 0 {
        assert forall|i: int| #![trigger f[i]] 0 <= i < f.len() implies {
            &&& f[i].len() > 0
            &&& forall|j: int| 0 <= j < f[i].len() ==> !is_white_space(#[trigger] f[i][j])
        } by {
            if i < done.len() {
                assert(f[i] == done[i]);
            } else {
                assert(f[i] == pending);
            }
        }
    }
}

proof fn lemma_fields_and_pending_words(s: Seq<char>)
    ensures
        ({
            let (done, pending) = fields_and_pending(s);
            &&& forall|j: int| 0 <= j < pending.len() ==> !is_white_space(#[trigger] pending[j])
            &&& forall|i: int|
                #![trigger done[i]]
                0 <= i < done.len() ==> {
                    &&& done[i].len() > 0
                    &&& forall|j: int| 0 <= j < done[i].len() ==> !is_white_space(#[trigger] done[i][j])
                }
        }),
    decreases s.len(),
{
    if s.len() > 0 {
        lemma_fields_and_pending_words(s.drop_last());
        let (done0, pending0) = fields_and_pending(s.drop_last());
        let (done, pending) = fields_and_pending(s);
        let c = s.last();
        if is_white_space(c) {
            if pending0.len() > 0 {
                assert forall|i: int| #![trigger done[i]] 0 <= i < done.len() implies {
                    &&& done[i].len() > 0
                    &&& forall|j: int| 0 <= j < done[i].len() ==> !is_white_space(#[trigger] done[i][j])
                } by {
                    if i < done0.len() {
                        assert(done[i] == done0[i]);
                    } else {
                        assert(done[i] == pending0);
                    }
                }
            }
        } else {
            assert forall|j: int| 0 <= j < pending.len() implies !is_white_space(#[trigger] pending[j]) by {
                if j < pending0.len() {
                    assert(pending[j] == pending0[j]);
                }
            }
        }
    }
}

pub open spec fn is_decimal_digit(c: char) -> bool {
    '0' <= c && c <= '9'
}

pub open spec fn digit_value(c: char) -> nat {
    (c as u32 - '0' as u32) as nat
}

/// The number that the decimal digits `s` spell.
pub open spec fn decimal_value(s: Seq<char>) -> nat
    decreases s.len(),
{
    if s.len() == 0 {
        0
    } else {
        decimal_value(s.drop_last()) * 10 + digit_value(s.last())
    }
}

/// The digits of `s`: `s` without the single leading `+` it may have.
pub open spec fn unsigned_digits(s: Seq<char>) -> Seq<char> {
    if s.len() > 1 && s[0] == '+' {
        s.drop_first()
    } else {
        s
    }
}

/// What `s.parse::<u64>()` gives: an optional `+`, then at least one decimal
/// digit and nothing else, spelling a number that fits in 64 bits.
pub open spec fn parse_u64(s: Seq<char>) -> Option<u64> {
    let digits = unsigned_digits(s);
    if digits.len() > 0 && (forall|i: int| 0 <= i < digits.len() ==> is_decimal_digit(#[trigger] digits[i]))
        && decimal_value(digits) <= u64::MAX {
        Some(decimal_value(digits) as u64)
    } else {
        None
    }
}

/// The character sequences held by `v`.
pub open spec fn fields_view(v: Seq<Vec<char>>) -> Seq<Seq<char>> {
    v.map_values(|f: Vec<char>| f@)
}

/// The characters of `s`, in order.
pub fn chars_of(s: &str) -> (r: Vec<char>)
    ensures
        r@ == s@,
{
    let mut v: Vec<char> = Vec::new();
    for c in it: s.chars()
        invariant
            v@ == it.seq().take(it.index()),
    {
        v.push(c);
    }
    v
}

/// Whether `c` is white space, as `char::is_whitespace` tells.
pub fn is_white_space_char(c: char) -> (r: bool)
    ensures
        r == is_white_space(c),
{
    let u = c as u32;
    (0x9 <= u && u <= 0xD) || u == 0x20 || u == 0x85 || u == 0xA0 || u == 0x1680 || (0x2000 <= u
        && u <= 0x200A) || u == 0x2028 || u == 0x2029 || u == 0x202F || u == 0x205F || u == 0x3000
}

/// The whitespace-separated fields of `line`.
pub fn split_fields(line: &Vec<char>) -> (fields: Vec<Vec<char>>)
    ensures
        fields_view(fields@) == whitespace_fields(line@),
{
    let mut done: Vec<Vec<char>> = Vec::new();
    let mut pending: Vec<char> = Vec::new();
    let mut i: usize = 0;
    while i < line.len()
        invariant
            0 <= i <= line.len(),
            (fields_view(done@), pending@) == fields_and_pending(line@.take(i as int)),
        decreases line.len() - i,
    {
        proof {
            assert(line@.take(i + 1).drop_last() =~= line@.take(i as int));
        }
        let c = line[i];
        if is_white_space_char(c) {
            if pending.len() > 0 {
                let ghost before = fields_view(done@);
                let field = pending;
                pending = Vec::new();
                done.push(field);
                proof {
                    assert(fields_view(done@) =~= before.push(field@));
                }
            }
        } else {
            pending.push(c);
        }
        i = i + 1;
    }
    proof {
        assert(line@.take(line.len() as int) =~= line@);
    }
    if pending.len() > 0 {
        let ghost before = fields_view(done@);
        let ghost last = pending@;
        done.push(pending);
        proof {
            assert(fields_view(done@) =~= before.push(last));
        }
    }
    done
}

proof fn lemma_decimal_value_prefix(s: Seq<char>, i: int)
    requires
        0 <= i <= s.len(),
    ensures
        decimal_value(s.take(i)) <= decimal_value(s),
    decreases s.len(),
{
    if i < s.len() {
        assert(s.drop_last().take(i) =~= s.take(i));
        lemma_decimal_value_prefix(s.drop_last(), i);
    } else {
        assert(s.take(i) =~= s);
    }
}

/// Whether `a` and `b` hold the same characters.
pub fn same_chars(a: &Vec<char>, b: &Vec<char>) -> (r: bool)
    ensures
        r == (a@ == b@),
{
    if a.len() != b.len() {
        return false;
    }
    let mut i: usize = 0;
    while i < a.len()
        invariant
            a.len() == b.len(),
            0 <= i <= a.len(),
            forall|j: int| 0 <= j < i ==> a@[j] == b@[j],
        decreases a.len() - i,
    {
        if a[i] != b[i] {
            return false;
        }
        i = i + 1;
    }
    proof {
        assert(a@ =~= b@);
    }
    true
}

/// Reads `s` as an unsigned 64-bit decimal number, as `str::parse::<u64>` does.
pub fn parse_u64_chars(s: &Vec<char>) -> (r: Option<u64>)
    ensures
        r == parse_u64(s@),
{
    let ghost digits = unsigned_digits(s@);
    let mut start: usize = 0;
    if s.len() > 1 && s[0] == '+' {
        start = 1;
    }
    proof {
        assert(digits =~= s@.skip(start as int));
    }
    if start == s.len() {
        return None;
    }
    let mut acc: u64 = 0;
    let mut i: usize = start;
    while i < s.len()
        invariant
            start <= i <= s.len(),
            digits == s@.skip(start as int),
            digits == unsigned_digits(s@),
            forall|j: int| 0 <= j < i - start ==> is_decimal_digit(#[trigger] digits[j]),
            acc == decimal_value(digits.take(i - start)),
        decreases s.len() - i,
    {
        let c = s[i];
        proof {
            assert(digits[i - start] == c);
            assert(digits.take(i - start + 1).drop_last() =~= digits.take(i - start));
        }
        if !('0' <= c && c <= '9') {
            proof {
                assert(!is_decimal_digit(digits[i - start]));
            }
            return None;
        }
        let d: u64 = ((c as u32) - ('0' as u32)) as u64;
        let next = match acc.checked_mul(10) {
            Some(t) => t.checked_add(d),
            None => None,
        };
        match next {
            Some(v) => {
                acc = v;
            },
            None => {
                proof {
                    lemma_decimal_value_prefix(digits, i - start + 1);
                }
                return None;
            },
        }
        i = i + 1;
    }
    proof {
        assert(digits.take(i - start) =~= digits);
    }
    Some(acc)
}

} // verus!
