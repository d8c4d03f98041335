use vstd::prelude::*;
use vstd::string::StringExecFns;
use crate::text::chars_of;

verus! {

pub open spec fn is_digit(c: char) -> bool {
    '0' <= c && c <= '9'
}

/// The number that a string of decimal digits denotes.
pub open spec fn digits_value(s: Seq<char>) -> int
    decreases s.len(),
{
    if s.len() == 0 {
        0
    } else {
        digits_value(s.drop_last()) * 10 + (s.last() as int - '0' as int)
    }
}

/// The digits of `s`, without the one `+` sign allowed in front.
pub open spec fn unsigned_part(s: Seq<char>) -> Seq<char> {
    if s.len() > 0 && s[0] == '+' {
        s.drop_first()
    } else {
        s
    }
}

/// `s` is an optional `+` and one or more decimal digits whose value fits in a `u64`.
pub open spec fn is_u64_text(s: Seq<char>) -> bool {
    let d = unsigned_part(s);
    &&& d.len() > 0
    &&& forall|i: int| 0 <= i < d.len() ==> is_digit(#[trigger] d[i])
    &&& digits_value(d) <= u64::MAX as int
}

/// The message for a seed that is not an unsigned integer.
pub open spec fn not_integer_message(val: Seq<char>) -> Seq<char> {
    seq!['"'] + val + "\" not a valid integer"@
}

/// Reads an unsigned 64-bit decimal integer, as `u64::from_str` does.
pub fn parse_u64(val: &str) -> (r: Result<u64, String>)
    ensures
        r is Ok <==> is_u64_text(val@),
        r is Ok ==> r->Ok_0 as int == digits_value(unsigned_part(val@)),
        r is Err ==> r->Err_0@ == not_integer_message(val@),
{
    let cs = chars_of(val);
    let start: usize = if cs.len() > 0 && cs[0] == '+' { 1 } else { 0 };
    let ghost d = unsigned_part(val@);
    assert(d =~= cs@.subrange(start as int, cs@.len() as int));
    let ok = cs.len() > start;
    let mut over = false;
    let mut v: u64 = 0;
    let mut i: usize = start;
    while i < cs.len()
        invariant
            start <= i <= cs.len(),
            cs@ == val@,
            d == cs@.subrange(start as int, cs@.len() as int),
            d == unsigned_part(val@),
            ok == (cs.len() > start),
            forall|j: int| start <= j < i ==> is_digit(#[trigger] cs@[j]),
            !over ==> v as int == digits_value(d.subrange(0, i - start)),
            over ==> digits_value(d.subrange(0, i - start)) > u64::MAX as int,
        decreases cs.len() - i,
    {
        let c = cs[i];
        let ghost p = d.subrange(0, i - start);
        let ghost q = d.subrange(0, i + 1 - start);
        assert(q.drop_last() =~= p);
        if !('0' <= c && c <= '9') {
            assert(d[i - start] == cs@[i as int]);
            assert(!is_digit(d[i - start]));
            assert(!is_u64_text(val@)) by {
                if is_u64_text(val@) {
                    assert(is_digit(unsigned_part(val@)[i - start]));
                }
            }
            return Err(not_integer(val));
        }
        let k: u64 = (c as u32 - '0' as u32) as u64;
        if !over {
            if v > 1844674407370955161u64 || (v == 1844674407370955161u64 && k > 5) {
                over = true;
            } else {
                v = v * 10 + k;
            }
        }
        i = i + 1;
    }
    if !ok || over {
        assert(d.subrange(0, d.len() as int) =~= d);
        return Err(not_integer(val));
    }
    assert(d.subrange(0, d.len() as int) =~= d);
    assert(forall|j: int| 0 <= j < d.len() ==> #[trigger] d[j] == cs@[start + j]);
    Ok(v)
}

fn not_integer(val: &str) -> (r: String)
    ensures
        r@ == not_integer_message(val@),
{
    let mut m = String::from_str("\"");
    m.append(val);
    m.append("\" not a valid integer");
    proof {
        reveal_strlit("\"");
    }
    assert(m@ =~= not_integer_message(val@));
    m
}

} // verus!
