//! Batch numbers, running numbers, and the counting rule that decides each
//! printed label of a production plan. The database itself is driven by the
//! application; what it asks of the library is decided here.
use vstd::prelude::*;
use vstd::string::StringSliceAdditionalSpecFns;
use vstd::utf8::*;

use crate::text::{
    all_digits, decimal_value, lemma_digits_len_at_most, lemma_digits_len_more_than,
    lemma_four_digit_value, lemma_nat_digits_value, lemma_zeros_then_digits, nat_digits, pow10,
    sign_chars, text_before, zeros,
    int_decimal, int_to_decimal, int_to_zero_padded, split_char, split_on, zero_padded};

verus! {

/// The year part of a batch number: bytes 2..4 of the first date field
/// ("26" from "2026").
pub open spec fn batch_year(first: Seq<char>) -> Seq<char> {
    decode_utf8(encode_utf8(first).subrange(2, 4))
}

/// A date that the batch number can be cut from: at least three fields
/// between '-', and a first field whose bytes 2 and 4 start characters (so
/// it holds at least four bytes).
pub open spec fn batch_date_ok(date: Seq<char>) -> bool {
    let parts = split_on(date, '-');
    &&& parts.len() >= 3
    &&& is_char_boundary(encode_utf8(parts[0]), 2)
    &&& is_char_boundary(encode_utf8(parts[0]), 4)
}

/// Batch number: year, month and day from the date, then the machine, then
/// the shift in decimal ("2026-02-02", "G7", 1 gives "260202G71").
pub open spec fn batch_number(date: Seq<char>, machine_id: Seq<char>, shift: int) -> Seq<char> {
    let parts = split_on(date, '-');
    batch_year(parts[0]) + parts[1] + parts[2] + machine_id + int_decimal(shift)
}

/// A year field in ASCII of at least four characters can be cut: its
/// bytes 2 and 4 start characters, and the cut is its third and fourth
/// characters ("26" of "2026").
pub proof fn lemma_ascii_year(first: Seq<char>)
    requires
        is_ascii_chars(first),
        first.len() >= 4,
    ensures
        is_char_boundary(encode_utf8(first), 2),
        is_char_boundary(encode_utf8(first), 4),
        batch_year(first) == first.subrange(2, 4),
{
    let bytes = encode_utf8(first);
    is_ascii_chars_encode_utf8(first);
    encode_utf8_valid_utf8(first);
    assert(bytes[2] == first[2] as u8);
    assert('\0' <= first[2] <= '\u{7f}');
    assert(!is_continuation_byte(bytes[2])) by {
        assert(bytes[2] < 128) by {
            is_ascii_chars_nat_bound(first);
        }
    }
    is_char_boundary_iff_not_is_continuation_byte(bytes, 2);
    if bytes.len() == 4 {
        is_char_boundary_start_end_of_seq(bytes);
    } else {
        assert(bytes[4] == first[4] as u8);
        assert(!is_continuation_byte(bytes[4])) by {
            assert(bytes[4] < 128) by {
                is_ascii_chars_nat_bound(first);
            }
        }
        is_char_boundary_iff_not_is_continuation_byte(bytes, 4);
    }
    let sub = first.subrange(2, 4);
    assert(is_ascii_chars(sub)) by {
        assert forall|i: int| 0 <= i < sub.len() implies '\0' <= #[trigger] sub[i] <= '\u{7f}' by {
            assert(sub[i] == first[i + 2]);
        }
    }
    is_ascii_chars_encode_utf8(sub);
    assert(encode_utf8(sub) =~= bytes.subrange(2, 4)) by {
        assert forall|i: int| 0 <= i < 2 implies #[trigger] encode_utf8(sub)[i] == bytes.subrange(2, 4)[i] by {
            assert(sub[i] == first[i + 2]);
        }
    }
    encode_utf8_decode_utf8(sub);
}

/// For a date whose first field is ASCII and at least four characters long
/// (such as "2026-02-02"), the batch number can be built, and it is the
/// last two characters of the year, the month field, the day field, the
/// machine and the shift.
pub proof fn lemma_batch_number_of_ascii_date(date: Seq<char>, machine_id: Seq<char>, shift: int)
    requires
        split_on(date, '-').len() >= 3,
        is_ascii_chars(split_on(date, '-')[0]),
        split_on(date, '-')[0].len() >= 4,
    ensures
        batch_date_ok(date),
        ({
            let parts = split_on(date, '-');
            batch_number(date, machine_id, shift) == parts[0].subrange(2, 4) + parts[1] + parts[2]
                + machine_id + int_decimal(shift)
        }),
{
    lemma_ascii_year(split_on(date, '-')[0]);
}

/// Builds the batch number of a date ("YYYY-MM-DD"), a machine and a shift.
/// Format: YYMMDD, machine, shift.
pub fn generate_batch_number(date: &str, machine_id: &str, shift: i32) -> (batch: String)
    requires
        batch_date_ok(date@),
    ensures
        batch@ == batch_number(date@, machine_id@, shift as int),
        batch@ == decode_utf8(encode_utf8(split_on(date@, '-')[0]).subrange(2, 4)) + split_on(
            date@,
            '-',
        )[1] + split_on(date@, '-')[2] + machine_id@ + int_decimal(shift as int),
{
    let parts = split_char(date, '-');
    let first: &str = parts[0];
    let ghost bytes = encode_utf8(first@);
    proof {
        encode_utf8_valid_utf8(first@);
    }
    let (head, _) = first.split_at(4);
    proof {
        encode_utf8_valid_utf8(head@);
        assert(head.spec_bytes()[2] == bytes[2]);
        is_char_boundary_iff_not_is_continuation_byte(bytes, 2);
        is_char_boundary_iff_not_is_continuation_byte(head.spec_bytes(), 2);
    }
    let (_, year) = head.split_at(2);
    proof {
        assert(year.spec_bytes() =~= bytes.subrange(2, 4));
        encode_utf8_decode_utf8(year@);
        assert(year@ == batch_year(first@));
    }
    let mut batch = String::new();
    batch.append(year);
    batch.append(parts[1]);
    batch.append(parts[2]);
    batch.append(machine_id);
    let shift_text = int_to_decimal(shift);
    batch.append(shift_text.as_str());
    proof {
        assert(batch@ =~= batch_number(date@, machine_id@, shift as int));
    }
    batch
}

/// The running number of a label: four digits with leading zeros
/// (1 gives "0001"), as `{:04}` renders it.
pub open spec fn running_number(num: int) -> Seq<char> {
    zero_padded(num, 4)
}

/// Formats a running number to four digits (0001, 0002, ...).
pub fn format_running_number(num: i32) -> (text: String)
    ensures
        text@ == running_number(num as int),
        0 <= num <= 9999 ==> text@.len() == 4 && all_digits(text@) && decimal_value(text@)
            == num,
        num >= 10000 ==> text@ == int_decimal(num as int) && text@.len() > 4,
{
    proof {
        if 0 <= num <= 9999 {
            lemma_running_number_reads_back(num as int);
        }
        if num >= 10000 {
            lemma_running_number_never_truncates(num as int);
            assert(int_decimal(num as int) =~= nat_digits(num as nat));
        }
    }
    int_to_zero_padded(num, 4)
}

/// A running number from 0 to 9999 is exactly four decimal digits and
/// reads back as the number it was made from.
pub proof fn lemma_running_number_reads_back(num: int)
    requires
        0 <= num <= 9999,
    ensures
        running_number(num).len() == 4,
        all_digits(running_number(num)),
        decimal_value(running_number(num)) == num,
{
    let n = num as nat;
    reveal_with_fuel(pow10, 5);
    lemma_digits_len_at_most(n, 4);
    lemma_nat_digits_value(n);
    lemma_zeros_then_digits((4 - nat_digits(n).len()) as nat, nat_digits(n));
    assert(sign_chars(num) =~= Seq::<char>::empty());
    assert(running_number(num) =~= zeros((4 - nat_digits(n).len()) as nat) + nat_digits(n));
}

/// Running numbers from 0 to 9999 sort as text in the order of the
/// numbers: a smaller number gives a running number that comes first.
pub proof fn lemma_running_numbers_sort_like_numbers(a: int, b: int)
    requires
        0 <= a < b <= 9999,
    ensures
        text_before(running_number(a), running_number(b)),
{
    let s = running_number(a);
    let t = running_number(b);
    lemma_running_number_reads_back(a);
    lemma_running_number_reads_back(b);
    lemma_four_digit_value(s);
    lemma_four_digit_value(t);
    assert('0' <= s[0] <= '9' && '0' <= s[1] <= '9' && '0' <= s[2] <= '9' && '0' <= s[3] <= '9');
    assert('0' <= t[0] <= '9' && '0' <= t[1] <= '9' && '0' <= t[2] <= '9' && '0' <= t[3] <= '9');
    let k: int = if s[0] != t[0] {
        0
    } else if s[1] != t[1] {
        1
    } else if s[2] != t[2] {
        2
    } else {
        3
    };
    assert(s.take(k) =~= t.take(k));
    assert(s[k] < t[k]);
}

/// A running number from 10000 on keeps all its digits: nothing is cut to
/// four places.
pub proof fn lemma_running_number_never_truncates(num: int)
    requires
        num >= 10000,
    ensures
        running_number(num) == nat_digits(num as nat),
        running_number(num).len() > 4,
{
    reveal_with_fuel(pow10, 5);
    lemma_digits_len_more_than(num as nat, 4);
    assert(sign_chars(num) =~= Seq::<char>::empty());
    assert(zeros(0) =~= Seq::<char>::empty());
    assert(running_number(num) =~= nat_digits(num as nat));
}

/// What one printed label does to a plan's counters: refused once the plan
/// total has reached the planned quantity; otherwise the batch count and the
/// plan total each go up by one. Gives (running number in the batch,
/// running number in the plan, labels still to print).
pub open spec fn label_step(batch_running: int, plan_total: int, plan_qty: int) -> Option<
    (int, int, int),
> {
    if plan_total >= plan_qty {
        None
    } else {
        Some((batch_running + 1, plan_total + 1, plan_qty - (plan_total + 1)))
    }
}

/// The counters of one accepted label.
#[derive(Debug, Clone, Copy, PartialEq, Eq, Structural)]
pub struct LabelCount {
    /// Running number of the label within its batch.
    pub running_no: i32,
    /// Running number of the label within the whole plan.
    pub global_running: i32,
    /// Labels the plan still has to print after this one.
    pub remaining: i32,
    /// This label fills the plan: the plan and its batch are completed.
    pub completes_plan: bool,
}

/// Why a label was refused.
#[derive(Debug, Clone, Copy, PartialEq, Eq, Structural)]
pub enum PlanError {
    /// The plan has already printed its planned quantity.
    PlanQuantityReached,
}

/// The decision behind printing the next label: from the batch's produced
/// count, the plan's total and the plan quantity, either the refusal or the
/// new counters to write back (and whether they close the plan).
pub fn count_next_label(batch_running: i32, plan_total: i32, plan_qty: i32) -> (r: Result<
    LabelCount,
    PlanError,
>)
    requires
        plan_total < plan_qty ==> batch_running < i32::MAX,
        plan_total < plan_qty ==> plan_qty - (plan_total + 1) <= i32::MAX,
    ensures
        r is Err <==> label_step(batch_running as int, plan_total as int, plan_qty as int) is None,
        r matches Ok(c) ==> label_step(batch_running as int, plan_total as int, plan_qty as int)
            == Some((c.running_no as int, c.global_running as int, c.remaining as int)),
        r matches Ok(c) ==> c.completes_plan == (c.global_running >= plan_qty),
        plan_total >= plan_qty ==> r == Err::<LabelCount, PlanError>(PlanError::PlanQuantityReached),
        plan_total < plan_qty ==> (r matches Ok(c) && c.running_no == batch_running + 1
            && c.global_running == plan_total + 1 && c.remaining == plan_qty - plan_total - 1
            && c.completes_plan == (plan_total + 1 == plan_qty)),
{
    if plan_total >= plan_qty {
        return Err(PlanError::PlanQuantityReached);
    }
    let running_no = batch_running + 1;
    let global_running = plan_total + 1;
    let remaining = plan_qty - global_running;
    Ok(LabelCount { running_no, global_running, remaining, completes_plan: global_running >= plan_qty })
}

/// An accepted label never takes a plan past its quantity: from a total at
/// or below the quantity, the new total is at most the quantity, the labels
/// left are never negative, and the plan completes exactly when none are
/// left.
pub proof fn lemma_label_stays_within_plan(batch_running: int, plan_total: int, plan_qty: int)
    requires
        plan_total <= plan_qty,
        label_step(batch_running, plan_total, plan_qty) is Some,
    ensures
        ({
            let (running, global, remaining) = label_step(batch_running, plan_total, plan_qty)->0;
            &&& global <= plan_qty
            &&& remaining >= 0
            &&& global + remaining == plan_qty
            &&& (global >= plan_qty <==> remaining == 0)
        }),
{
}

/// Printing carries on where the last label left off: after a label that
/// gave (r, g, rem), the next label of the same batch and plan gives
/// (r + 1, g + 1, rem - 1) while labels remain, and is refused once none
/// remain.
pub proof fn lemma_next_label_continues(batch_running: int, plan_total: int, plan_qty: int)
    requires
        label_step(batch_running, plan_total, plan_qty) is Some,
    ensures
        ({
            let (r, g, rem) = label_step(batch_running, plan_total, plan_qty)->0;
            &&& rem > 0 ==> label_step(r, g, plan_qty) == Some((r + 1, g + 1, rem - 1))
            &&& rem <= 0 ==> label_step(r, g, plan_qty) is None
        }),
{
}

/// Each accepted label counts one more in its batch and one more in its
/// plan: its running number in the batch is the batch's produced count plus
/// one (the first label of a fresh batch is number 1), its running number
/// in the plan is the plan total plus one, and the labels left are the
/// quantity minus that; a plan that is full refuses the label.
pub proof fn lemma_label_counts_one_more(batch_running: int, plan_total: int, plan_qty: int)
    ensures
        plan_total < plan_qty ==> label_step(batch_running, plan_total, plan_qty) == Some(
            (batch_running + 1, plan_total + 1, plan_qty - plan_total - 1),
        ),
        plan_total >= plan_qty ==> label_step(batch_running, plan_total, plan_qty) is None,
{
}

/// The plan total after `k` labels in a row, or `None` if one of them is
/// refused.
pub open spec fn plan_total_after(plan_total: int, plan_qty: int, k: nat) -> Option<int>
    decreases k,
{
    if k == 0 {
        Some(plan_total)
    } else {
        match label_step(0, plan_total, plan_qty) {
            None => None,
            Some((_, next, _)) => plan_total_after(next, plan_qty, (k - 1) as nat),
        }
    }
}

/// A plan prints exactly its planned quantity: from a total `t` at or below
/// the quantity `q`, `k` labels in a row are all accepted exactly when
/// `t + k <= q`, and the total then is `t + k`.
pub proof fn lemma_plan_capacity(plan_total: int, plan_qty: int, k: nat)
    requires
        plan_total <= plan_qty,
    ensures
        plan_total_after(plan_total, plan_qty, k) is Some <==> plan_total + k <= plan_qty,
        plan_total + k <= plan_qty ==> plan_total_after(plan_total, plan_qty, k) == Some(
            plan_total + k,
        ),
    decreases k,
{
    if k > 0 && plan_total < plan_qty {
        lemma_plan_capacity(plan_total + 1, plan_qty, (k - 1) as nat);
    }
}

} // verus!
