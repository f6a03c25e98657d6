//! The HTTP demo's request counters and user/friend responses, with the
//! decimal rendering of counts.

use vstd::prelude::*;

verus! {

/// The character of decimal digit `d`.
pub open spec fn digit_char(d: nat) -> char {
    (48 + d) as char
}

/// The decimal digits of `n`, most significant first, without leading zeros.
pub open spec fn decimal_nat(n: nat) -> Seq<char>
    decreases n,
{
    if n < 10 {
        seq![digit_char(n)]
    } else {
        decimal_nat(n / 10).push(digit_char(n % 10))
    }
}

/// The decimal rendering of `n`: a minus sign for negatives, then the digits.
pub open spec fn decimal(n: int) -> Seq<char> {
    if n < 0 {
        seq!['-'] + decimal_nat((-n) as nat)
    } else {
        decimal_nat(n as nat)
    }
}

/// Whether `c` is one of the characters `0` to `9`.
pub open spec fn is_digit(c: char) -> bool {
    48 <= (c as int) <= 57
}

/// The number that a string of decimal digits denotes, read from the left:
/// each further digit multiplies what came before by ten and adds its value.
pub open spec fn digits_value(s: Seq<char>) -> int
    decreases s.len(),
{
    if s.len() == 0 {
        0
    } else {
        digits_value(s.drop_last()) * 10 + (s.last() as int - 48)
    }
}

/// The digits of `n` are decimal digits, read back as `n`, and start with a
/// nonzero digit unless `n` is zero, which is the single digit `0`.
pub proof fn lemma_decimal_reads_back(n: nat)
    ensures
        decimal_nat(n).len() >= 1,
        forall|i: int| 0 <= i < decimal_nat(n).len() ==> is_digit(#[trigger] decimal_nat(n)[i]),
        digits_value(decimal_nat(n)) == n,
        n > 0 ==> decimal_nat(n)[0] != '0',
        n == 0 ==> decimal_nat(n) == seq!['0'],
    decreases n,
{
    if n < 10 {
        assert(decimal_nat(n) == seq![digit_char(n)]);
        assert(seq![digit_char(n)].drop_last() =~= Seq::<char>::empty());
        assert((digit_char(n) as int) == 48 + n);
        assert(digits_value(Seq::<char>::empty()) == 0);
        assert(digits_value(seq![digit_char(n)]) == digits_value(Seq::<char>::empty()) * 10 + (
        digit_char(n) as int - 48));
    } else {
        lemma_decimal_reads_back(n / 10);
        let head = decimal_nat(n / 10);
        let c = digit_char(n % 10);
        assert(decimal_nat(n) == head.push(c));
        assert(head.push(c).drop_last() =~= head);
        assert((c as int) == 48 + n % 10);
        assert(head.push(c)[0] == head[0]);
        assert(digits_value(head.push(c)) == digits_value(head) * 10 + (c as int - 48));
        assert((n / 10) * 10 + n % 10 == n);
        assert forall|i: int| 0 <= i < head.push(c).len() implies is_digit(
            #[trigger] head.push(c)[i],
        ) by {
            if i < head.len() {
                assert(head.push(c)[i] == head[i]);
            }
        }
    }
}

/// A negative number is rendered as a minus sign and the digits of its
/// magnitude; any other number as its digits alone.
pub proof fn lemma_decimal_sign(n: int)
    ensures
        n < 0 ==> decimal(n)[0] == '-' && digits_value(decimal(n).drop_first()) == -n,
        n >= 0 ==> digits_value(decimal(n)) == n && decimal(n)[0] != '-',
{
    if n < 0 {
        lemma_decimal_reads_back((-n) as nat);
        assert((seq!['-'] + decimal_nat((-n) as nat)).drop_first() =~= decimal_nat((-n) as nat));
    } else {
        lemma_decimal_reads_back(n as nat);
        assert(is_digit(decimal_nat(n as nat)[0]));
    }
}

/// The text of decimal digit `d`.
fn digit_text(d: u32) -> (s: &'static str)
    requires
        d < 10,
    ensures
        s@ == seq![digit_char(d as nat)],
{
    proof {
        reveal_strlit("0");
        reveal_strlit("1");
        reveal_strlit("2");
        reveal_strlit("3");
        reveal_strlit("4");
        reveal_strlit("5");
        reveal_strlit("6");
        reveal_strlit("7");
        reveal_strlit("8");
        reveal_strlit("9");
    }
    match d {
        0 => "0",
        1 => "1",
        2 => "2",
        3 => "3",
        4 => "4",
        5 => "5",
        6 => "6",
        7 => "7",
        8 => "8",
        _ => "9",
    }
}

/// Appends the decimal digits of `n` to `out`.
fn push_decimal_nat(out: &mut String, n: u32)
    ensures
        final(out)@ == old(out)@ + decimal_nat(n as nat),
    decreases n,
{
    if n < 10 {
        out.append(digit_text(n));
    } else {
        push_decimal_nat(out, n / 10);
        out.append(digit_text(n % 10));
        proof {
            assert(old(out)@ + decimal_nat(n as nat) =~= old(out)@ + decimal_nat((n / 10) as nat)
                + seq![digit_char((n % 10) as nat)]);
        }
    }
}

/// The decimal rendering of `n`, as `i32`'s `Display` writes it.
pub fn decimal_string(n: i32) -> (s: String)
    ensures
        s@ == decimal(n as int),
        n >= 0 ==> digits_value(s@) == n && (forall|i: int|
            0 <= i < s@.len() ==> is_digit(#[trigger] s@[i])) && (n > 0 ==> s@[0] != '0'),
        n < 0 ==> s@[0] == '-' && digits_value(s@.drop_first()) == -n && (forall|i: int|
            1 <= i < s@.len() ==> is_digit(#[trigger] s@[i])) && s@[1] != '0',
{
    proof {
        lemma_decimal_sign(n as int);
        if n >= 0 {
            lemma_decimal_reads_back(n as nat);
        } else {
            let m = (-n) as nat;
            lemma_decimal_reads_back(m);
            let d = decimal_nat(m);
            assert forall|i: int| 1 <= i < (seq!['-'] + d).len() implies is_digit(
                #[trigger] (seq!['-'] + d)[i],
            ) by {
                assert((seq!['-'] + d)[i] == d[i - 1]);
            }
            assert((seq!['-'] + d)[1] == d[0]);
        }
    }
    let mut s = String::new();
    if n < 0 {
        s.append("-");
        proof {
            reveal_strlit("-");
        }
        let magnitude: u32 = (0i64 - (n as i64)) as u32;
        push_decimal_nat(&mut s, magnitude);
    } else {
        push_decimal_nat(&mut s, n as u32);
    }
    s
}

/// The words before the count in a counter's reply.
pub open spec fn request_number_prefix() -> Seq<char> {
    seq!['R', 'e', 'q', 'u', 'e', 's', 't', ' ', 'n', 'u', 'm', 'b', 'e', 'r', ':', ' ']
}

/// The reply that reports request number `count`.
pub open spec fn request_number_text(count: int) -> Seq<char> {
    request_number_prefix() + decimal(count)
}

/// A request counter, as each counting route of the server keeps one.
#[derive(Debug, Clone, Copy, PartialEq, Eq, Structural)]
pub struct RequestCounter {
    pub count: i32,
}

impl RequestCounter {
    /// A counter that has seen no request.
    pub fn new() -> (c: Self)
        ensures
            c.count == 0,
    {
        RequestCounter { count: 0 }
    }

    /// Counts one more request and returns the reply that reports its number.
    pub fn hit(&mut self) -> (reply: String)
        requires
            old(self).count < i32::MAX,
        ensures
            final(self).count == old(self).count + 1,
            reply@ == request_number_text(final(self).count as int),
    {
        self.count = self.count + 1;
        let mut reply = String::from_str("Request number: ");
        proof {
            reveal_strlit("Request number: ");
        }
        let digits = decimal_string(self.count);
        reply.append(digits.as_str());
        reply
    }
}

/// The body of the user/friend route: the two ids of the path.
#[derive(Debug, Clone, Copy, PartialEq, Eq, Structural)]
pub struct JsonResponse {
    pub user_id: u32,
    pub friend_id: u32,
}

/// Answers `/user/{user_id}/{friend_id}` with the two ids.
pub fn get_user_friend(user_id: u32, friend_id: u32) -> (r: JsonResponse)
    ensures
        r.user_id == user_id,
        r.friend_id == friend_id,
{
    JsonResponse { user_id, friend_id }
}

} // verus!
