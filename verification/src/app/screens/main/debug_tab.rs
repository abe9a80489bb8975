//! The debug tab: the name and amount of a resource to put in the depot.

use vstd::prelude::*;

use crate::app::resources::{amount_of, ResourceMap};
use crate::strings::{decimal, digit_char, signed_decimal};

verus! {

/// The character is a decimal digit.
pub open spec fn is_digit(c: char) -> bool {
    '0' <= c <= '9'
}

/// The number the decimal digits write.
pub open spec fn digits_value(digits: Seq<char>) -> int
    decreases digits.len(),
{
    if digits.len() == 0 {
        0
    } else {
        digits_value(digits.drop_last()) * 10 + (digits.last() as int - '0' as int)
    }
}

/// The text is decimal digits only.
pub open spec fn all_digits(text: Seq<char>) -> bool {
    forall|i: int| 0 <= i < text.len() ==> is_digit(#[trigger] text[i])
}

/// The text after its sign, if it starts with `+` or `-`.
pub open spec fn unsigned_part(text: Seq<char>) -> Seq<char> {
    if text.len() > 0 && (text[0] == '-' || text[0] == '+') {
        text.drop_first()
    } else {
        text
    }
}

/// The whole number the text writes: decimal digits, at least one, after
/// an optional `+` or `-`.
pub open spec fn written_number(text: Seq<char>) -> Option<int> {
    let digits = unsigned_part(text);
    if digits.len() > 0 && all_digits(digits) {
        if text[0] == '-' {
            Some(-digits_value(digits))
        } else {
            Some(digits_value(digits))
        }
    } else {
        None
    }
}

/// The amount the text gives: the number it writes, where that fits in
/// `i64`.
pub open spec fn spec_amount(text: Seq<char>) -> Option<i64> {
    match written_number(text) {
        Some(n) => if i64::MIN <= n <= i64::MAX {
            Some(n as i64)
        } else {
            None
        },
        None => None,
    }
}

/// Decimal digits write a number of at least nothing, and at least what
/// any of their prefixes write.
proof fn lemma_digits_prefix(digits: Seq<char>, k: int)
    requires
        0 <= k <= digits.len(),
        all_digits(digits),
    ensures
        0 <= digits_value(digits.take(k)) <= digits_value(digits),
    decreases digits.len(),
{
    if k == digits.len() {
        assert(digits.take(k) =~= digits);
        if digits.len() > 0 {
            lemma_digits_prefix(digits.drop_last(), k - 1);
            assert(digits.drop_last().take(k - 1) =~= digits.drop_last());
        }
    } else {
        let rest = digits.drop_last();
        lemma_digits_prefix(rest, k);
        lemma_digits_prefix(rest, rest.len() as int);
        assert(rest.take(k) =~= digits.take(k));
        assert(rest.take(rest.len() as int) =~= rest);
        assert(is_digit(digits[digits.len() - 1]));
    }
}

/// The decimal notation of a number is digits only, at least one, and
/// writes the number.
proof fn lemma_decimal_reads_back(n: nat)
    ensures
        decimal(n).len() > 0,
        all_digits(decimal(n)),
        digits_value(decimal(n)) == n,
    decreases n,
{
    let d = (n % 10) as int;
    assert('0' <= digit_char(d) <= '9' && digit_char(d) as int - '0' as int == d) by {
        assert(0 <= d < 10);
    }
    if n >= 10 {
        lemma_decimal_reads_back(n / 10);
        let s = decimal(n);
        assert(s.drop_last() =~= decimal(n / 10));
        assert(s.last() == digit_char(d));
        assert((n / 10) * 10 + n % 10 == n) by (nonlinear_arith);
        assert(digits_value(s) == digits_value(decimal(n / 10)) * 10 + (digit_char(d) as int
            - '0' as int));
        assert forall|i: int| 0 <= i < s.len() implies is_digit(#[trigger] s[i]) by {
            if i < s.len() - 1 {
                assert(s[i] == decimal(n / 10)[i]);
            }
        }
    } else {
        assert(n % 10 == n);
        let s = decimal(n);
        assert(s.drop_last() =~= Seq::<char>::empty());
        assert(digits_value(s.drop_last()) == 0);
        assert(s.last() == digit_char(d));
        assert(digits_value(s) == digit_char(d) as int - '0' as int);
    }
}

/// Every `i64` written in decimal, with a `-` before a negative one, reads
/// back as itself; a leading `+` is accepted too. Empty text, a sign alone,
/// text starting with a character that is neither a digit nor a sign, and
/// text with a character past its first that is no digit are refused.
pub proof fn law_parse_amount_reads_decimals(n: i64, text: Seq<char>)
    ensures
        spec_amount(signed_decimal(n as int)) == Some(n),
        n >= 0 ==> spec_amount(seq!['+'] + signed_decimal(n as int)) == Some(n),
        text.len() == 0 ==> spec_amount(text) is None,
        text == seq!['-'] || text == seq!['+'] ==> spec_amount(text) is None,
        text.len() > 0 && text[0] != '-' && text[0] != '+' && !('0' <= text[0] <= '9')
            ==> spec_amount(text) is None,
        (exists|i: int| 1 <= i < text.len() && !('0' <= #[trigger] text[i] <= '9')) ==> spec_amount(
            text,
        ) is None,
{
    if n < 0 {
        lemma_decimal_reads_back((-n) as nat);
        let s = signed_decimal(n as int);
        assert(s.drop_first() =~= decimal((-n) as nat));
        assert(unsigned_part(s) == decimal((-n) as nat));
    } else {
        lemma_decimal_reads_back(n as nat);
        let s = decimal(n as nat);
        assert(is_digit(s[0]));
        assert(unsigned_part(s) == s);
        let p = seq!['+'] + s;
        assert(p.drop_first() =~= s);
    }
    if exists|i: int| 1 <= i < text.len() && !('0' <= #[trigger] text[i] <= '9') {
        let i = choose|i: int| 1 <= i < text.len() && !('0' <= #[trigger] text[i] <= '9');
        let u = unsigned_part(text);
        if text[0] == '-' || text[0] == '+' {
            assert(u[i - 1] == text[i]);
            assert(!is_digit(u[i - 1]));
        } else {
            assert(!is_digit(u[i]));
        }
    }
    if text.len() > 0 && text[0] != '-' && text[0] != '+' && !('0' <= text[0] <= '9') {
        assert(!is_digit(unsigned_part(text)[0]));
    }
    if text == seq!['-'] || text == seq!['+'] {
        assert(unsigned_part(text).len() == 0);
    }
}

/// The amount the text gives, if it writes one that fits in `i64`.
pub fn parse_amount(text: &str) -> (amount: Option<i64>)
    ensures
        amount == spec_amount(text@),
{
    let ghost t = text@;
    let count = text.unicode_len();
    if count == 0 {
        return None;
    }
    let first = text.get_char(0);
    let start: usize = if first == '-' || first == '+' {
        1
    } else {
        0
    };
    let ghost digits = t.subrange(start as int, count as int);
    proof {
        if start == 1 {
            assert(digits =~= t.drop_first());
        } else {
            assert(digits =~= t);
        }
    }
    if start == count {
        return None;
    }
    let mut value: u64 = 0;
    let mut i: usize = start;
    while i < count
        invariant
            t == text@,
            count == t.len(),
            start <= i <= count,
            start < count,
            first == t[0],
            start == 1 <==> (first == '-' || first == '+'),
            start == 0 || start == 1,
            digits == t.subrange(start as int, count as int),
            digits == unsigned_part(t),
            forall|j: int| 0 <= j < i - start ==> is_digit(#[trigger] digits[j]),
            value == digits_value(digits.take(i - start)),
            value <= 0x8000_0000_0000_0000,
        decreases count - i,
    {
        let c = text.get_char(i);
        proof {
            assert(digits[i - start] == c);
        }
        if c < '0' || c > '9' {
            proof {
                assert(!is_digit(digits[i - start]));
            }
            return None;
        }
        let next: u128 = value as u128 * 10 + (c as u32 - '0' as u32) as u128;
        proof {
            let prefix = digits.take(i - start + 1);
            assert(prefix.drop_last() =~= digits.take(i - start));
            assert(prefix.last() == c);
            assert(next == digits_value(prefix));
        }
        if next > 0x8000_0000_0000_0000 {
            proof {
                if all_digits(digits) {
                    lemma_digits_prefix(digits, i - start + 1);
                }
            }
            return None;
        }
        value = next as u64;
        i = i + 1;
    }
    proof {
        assert(digits.take(i - start) =~= digits);
    }
    if first == '-' {
        if value == 0x8000_0000_0000_0000 {
            Some(i64::MIN)
        } else {
            Some(-(value as i64))
        }
    } else if value > 0x7fff_ffff_ffff_ffff {
        None
    } else {
        Some(value as i64)
    }
}

/// The debug tab, holding the resource name and amount typed so far.
pub struct MainScreenDebugTab {
    spawn_resource_name: String,
    spawn_resource_value: String,
}

impl MainScreenDebugTab {
    /// The resource name typed so far.
    pub closed spec fn spec_name(&self) -> Seq<char> {
        self.spawn_resource_name@
    }

    /// The amount typed so far.
    pub closed spec fn spec_value(&self) -> Seq<char> {
        self.spawn_resource_value@
    }

    /// The tab, offering ten humans.
    pub fn new() -> (tab: Self)
        ensures
            tab.spec_name() == "human"@,
            tab.spec_value() == "10"@,
    {
        MainScreenDebugTab {
            spawn_resource_name: String::from_str("human"),
            spawn_resource_value: String::from_str("10"),
        }
    }

    /// The resource name, to edit.
    pub fn name_mut(&mut self) -> (name: &mut String)
        ensures
            name@ == old(self).spec_name(),
            final(self).spec_name() == final(name)@,
            final(self).spec_value() == old(self).spec_value(),
    {
        &mut self.spawn_resource_name
    }

    /// The amount, to edit.
    pub fn value_mut(&mut self) -> (value: &mut String)
        ensures
            value@ == old(self).spec_value(),
            final(self).spec_value() == final(value)@,
            final(self).spec_name() == old(self).spec_name(),
    {
        &mut self.spawn_resource_value
    }

    /// The spawn click: adds the amount typed to the depot's stock of the
    /// resource named (whose id is `resource`).
    pub fn spawn(&self, resource: u64, depot: &mut ResourceMap)
        requires
            spec_amount(self.spec_value()) is Some,
            i64::MIN <= amount_of(old(depot)@, resource) + spec_amount(self.spec_value())->0
                <= i64::MAX,
        ensures
            final(depot)@ == old(depot)@.insert(
                resource,
                (amount_of(old(depot)@, resource) + spec_amount(self.spec_value())->0) as i64,
            ),
    {
        match parse_amount(self.spawn_resource_value.as_str()) {
            Some(amount) => depot.put(resource, amount),
            None => {},
        }
    }
}

} // verus!
