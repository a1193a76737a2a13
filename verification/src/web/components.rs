//! The logic behind the web page's widgets: which chat message is on screen,
//! acknowledging it, and the names of the configuration form's fields.

use crate::chat::{ChatInbox, ChatInboxSnapshot};
use crate::text::{chars_of, decimal_string, push_str};
use vstd::prelude::*;

verus! {

/// The id of the message on screen, in decimal, or empty when there is none.
pub fn current_message_id(snapshot: &ChatInboxSnapshot) -> (r: String)
    ensures
        r@ == (match snapshot.current {
            Some(m) => crate::text::decimal(m.id as nat),
            None => Seq::empty(),
        }),
{
    match &snapshot.current {
        Some(m) => decimal_string(m.id),
        None => String::new(),
    }
}

pub open spec fn is_digit(c: char) -> bool {
    '0' <= c && c <= '9'
}

/// The number that decimal digits spell.
pub open spec fn digits_value(s: Seq<char>) -> int
    decreases s.len(),
{
    if s.len() == 0 {
        0
    } else {
        digits_value(s.drop_last()) * 10 + (s.last() as int - '0' as int)
    }
}

pub open spec fn all_digits(s: Seq<char>) -> bool {
    forall|i: int| 0 <= i < s.len() ==> is_digit(#[trigger] s[i])
}

/// `s` read as a `u64` the way `str::parse::<u64>` reads it: an optional `+`,
/// then at least one decimal digit, and a value that fits.
pub open spec fn parse_u64_spec(s: Seq<char>) -> Option<u64> {
    let d = if s.len() > 0 && s[0] == '+' { s.drop_first() } else { s };
    if d.len() > 0 && all_digits(d) && digits_value(d) <= u64::MAX {
        Some(digits_value(d) as u64)
    } else {
        None
    }
}

proof fn lemma_digits_value_grows(s: Seq<char>, k: int)
    requires
        0 <= k <= s.len(),
        all_digits(s),
    ensures
        0 <= digits_value(s.take(k)) <= digits_value(s),
    decreases s.len() - k,
{
    if k < s.len() {
        lemma_digits_value_grows(s, k + 1);
        assert(s.take(k + 1).drop_last() =~= s.take(k));
        lemma_digits_value_nonneg(s.take(k));
    } else {
        assert(s.take(k) =~= s);
        lemma_digits_value_nonneg(s);
    }
}

proof fn lemma_digits_value_nonneg(s: Seq<char>)
    requires
        all_digits(s),
    ensures
        digits_value(s) >= 0,
    decreases s.len(),
{
    if s.len() > 0 {
        lemma_digits_value_nonneg(s.drop_last());
    }
}

proof fn lemma_digit_char(d: nat)
    requires
        d < 10,
    ensures
        is_digit(crate::text::digit_char(d)),
        crate::text::digit_char(d) as int - '0' as int == d,
{
}

proof fn lemma_decimal_reads_back(n: nat)
    ensures
        decimal_read(n),
    decreases n,
{
    let s = crate::text::decimal(n);
    if n < 10 {
        lemma_digit_char(n);
        assert(s == seq![crate::text::digit_char(n)]);
        assert(s.drop_last() =~= Seq::<char>::empty());
        assert(digits_value(s.drop_last()) == 0);
        assert(s.last() == crate::text::digit_char(n));
        assert(digits_value(s) == n);
        assert(all_digits(s));
    } else {
        lemma_digit_char(n % 10);
        lemma_decimal_reads_back(n / 10);
        let t = crate::text::decimal(n / 10);
        assert(s == t.push(crate::text::digit_char(n % 10)));
        assert(s.drop_last() =~= t);
        assert(s[0] == t[0]);
        assert forall|i: int| 0 <= i < s.len() implies is_digit(#[trigger] s[i]) by {
            if i < t.len() {
                assert(s[i] == t[i]);
            }
        }
        assert(s.last() == crate::text::digit_char(n % 10));
        assert(digits_value(s) == digits_value(t) * 10 + (n % 10));
        assert((n / 10) * 10 + n % 10 == n);
    }
}

/// `n` in decimal is all digits, starts with a digit, and spells `n`.
pub open spec fn decimal_read(n: nat) -> bool {
    let s = crate::text::decimal(n);
    &&& s.len() > 0
    &&& is_digit(s[0])
    &&& all_digits(s)
    &&& digits_value(s) == n
}

/// The id the page shows for a message reads back as that id, so
/// acknowledging the message on screen removes exactly that message.
pub proof fn displayed_ids_read_back(id: u64)
    ensures
        parse_u64_spec(crate::text::decimal(id as nat)) == Some(id),
{
    lemma_decimal_reads_back(id as nat);
}

/// Reads a displayed message id.
pub fn parse_message_id(text: &str) -> (r: Option<u64>)
    ensures
        r == parse_u64_spec(text@),
{
    let v = chars_of(text);
    let start: usize = if v.len() > 0 && v[0] == '+' { 1 } else { 0 };
    let ghost d = if v@.len() > 0 && v@[0] == '+' { v@.drop_first() } else { v@ };
    assert(d =~= v@.skip(start as int));
    if start == v.len() {
        return None;
    }
    let mut value: u64 = 0;
    let mut k: usize = start;
    while k < v.len()
        invariant
            start <= k <= v@.len(),
            start < v@.len(),
            d == v@.skip(start as int),
            d == (if text@.len() > 0 && text@[0] == '+' { text@.drop_first() } else { text@ }),
            v@ == text@,
            all_digits(d.take(k - start)),
            value as int == digits_value(d.take(k - start)),
        decreases v@.len() - k,
    {
        let c = v[k];
        if !('0' <= c && c <= '9') {
            assert(!is_digit(d[k - start]));
            assert(!all_digits(d));
            return None;
        }
        let digit: u64 = (c as u64) - 48;
        assert(d.take(k - start + 1).drop_last() =~= d.take(k - start));
        assert(d.take(k - start + 1).last() == c);
        assert(all_digits(d.take(k - start + 1)));
        assert(digits_value(d.take(k - start + 1)) == value * 10 + digit);
        match value.checked_mul(10) {
            Some(m) => match m.checked_add(digit) {
                Some(n) => {
                    value = n;
                },
                None => {
                    proof {
                        if all_digits(d) {
                            lemma_digits_value_grows(d, k - start + 1);
                        }
                    }
                    return None;
                },
            },
            None => {
                proof {
                    if all_digits(d) {
                        lemma_digits_value_grows(d, k - start + 1);
                        lemma_digits_value_nonneg(d.take(k - start));
                    }
                }
                return None;
            },
        }
        k += 1;
    }
    assert(d.take(k - start) =~= d);
    Some(value)
}

/// Acknowledges the message the operator saw, if its id reads and is still the
/// current one; returns whether a message was removed and the id now on screen.
pub fn acknowledge_displayed(inbox: &mut ChatInbox, displayed_id: &str) -> (r: (bool, String))
    ensures
        final(inbox)@.wf(),
        r.0 == (parse_u64_spec(displayed_id@) matches Some(id) && old(inbox)@.messages.len() > 0
            && old(inbox)@.messages[0].id == id),
        final(inbox)@.messages == (if r.0 {
            old(inbox)@.messages.drop_first()
        } else {
            old(inbox)@.messages
        }),
        r.1@ == (if final(inbox)@.messages.len() > 0 {
            crate::text::decimal(final(inbox)@.messages[0].id as nat)
        } else {
            Seq::empty()
        }),
{
    let removed = match parse_message_id(displayed_id) {
        Some(id) => inbox.acknowledge(id),
        None => false,
    };
    let snapshot = inbox.snapshot();
    (removed, current_message_id(&snapshot))
}

/// The form name of a field of target `index`: `targets[<index>][<field>]`.
pub fn target_field_name(index: usize, field: &str) -> (r: String)
    ensures
        r@ == "targets["@ + crate::text::decimal(index as nat) + "]["@ + field@ + "]"@,
{
    let mut r = "targets[".to_owned();
    push_str(&mut r, decimal_string(index as u64).as_str());
    push_str(&mut r, "][");
    push_str(&mut r, field);
    push_str(&mut r, "]");
    r
}

/// The placeholder of a secret input: a configured secret is kept when the
/// field is left blank.
pub fn secret_placeholder<'a>(configured: bool, empty_placeholder: &'a str) -> (r: &'a str)
    ensures
        r@ == (if configured { "Configured — leave blank to keep it"@ } else { empty_placeholder@ }),
{
    if configured {
        "Configured — leave blank to keep it"
    } else {
        empty_placeholder
    }
}

} // verus!
