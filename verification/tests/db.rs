use label_print::db::{count_next_label, format_running_number, generate_batch_number, LabelCount, PlanError};

#[test]
fn test_batch_number_generation() {
    let batch = generate_batch_number("2026-02-02", "G7", 1);
    assert_eq!(batch, "260202G71");

    let batch2 = generate_batch_number("2026-02-14", "D9", 2);
    assert_eq!(batch2, "260214D92");
}

#[test]
fn test_running_number_format() {
    assert_eq!(format_running_number(1), "0001");
    assert_eq!(format_running_number(69), "0069");
    assert_eq!(format_running_number(100), "0100");
}

#[test]
fn batch_number_keeps_shift_digits_and_sign() {
    assert_eq!(generate_batch_number("2026-12-31", "E2", 12), "261231E212");
    assert_eq!(generate_batch_number("2026-12-31", "E2", -3), "261231E2-3");
    assert_eq!(generate_batch_number("2026-12-31", "", 0), "2612310");
}

#[test]
fn batch_number_ignores_extra_date_fields() {
    assert_eq!(generate_batch_number("2026-02-02-extra", "G7", 1), "260202G71");
}

#[test]
fn batch_number_takes_bytes_two_to_four_of_the_year() {
    assert_eq!(generate_batch_number("12345-6-7", "M", 3), "3467M3");
    assert_eq!(generate_batch_number("2026--", "G7", 1), "26G71");
}

#[test]
fn running_number_edges() {
    assert_eq!(format_running_number(0), "0000");
    assert_eq!(format_running_number(9999), "9999");
    assert_eq!(format_running_number(10000), "10000");
    assert_eq!(format_running_number(-5), "-005");
    assert_eq!(format_running_number(-1234), "-1234");
    assert_eq!(format_running_number(i32::MIN), "-2147483648");
    assert_eq!(format_running_number(i32::MAX), "2147483647");
}

#[test]
fn running_number_reads_back() {
    for n in [0, 7, 42, 315, 9999] {
        let text = format_running_number(n);
        assert_eq!(text.len(), 4);
        assert!(text.chars().all(|c| c.is_ascii_digit()));
        assert_eq!(text.parse::<i32>().unwrap(), n);
    }
}

#[test]
fn next_label_counts_up() {
    let c = count_next_label(4, 9, 100).unwrap();
    assert_eq!(
        c,
        LabelCount { running_no: 5, global_running: 10, remaining: 90, completes_plan: false }
    );
}

#[test]
fn next_label_completes_plan() {
    let c = count_next_label(0, 99, 100).unwrap();
    assert_eq!(
        c,
        LabelCount { running_no: 1, global_running: 100, remaining: 0, completes_plan: true }
    );
}

#[test]
fn next_label_refused_when_plan_full() {
    assert_eq!(count_next_label(3, 100, 100), Err(PlanError::PlanQuantityReached));
    assert_eq!(count_next_label(i32::MAX, 5, 2), Err(PlanError::PlanQuantityReached));
}

#[test]
fn plan_prints_exactly_its_quantity() {
    let qty = 5;
    let mut total = 0;
    let mut batch = 0;
    let mut accepted = 0;
    for _ in 0..10 {
        match count_next_label(batch, total, qty) {
            Ok(c) => {
                accepted += 1;
                batch = c.running_no;
                total = c.global_running;
                assert_eq!(c.remaining, qty - total);
                assert_eq!(c.completes_plan, total == qty);
            }
            Err(PlanError::PlanQuantityReached) => {}
        }
    }
    assert_eq!(accepted, qty);
    assert_eq!(total, qty);
}

#[test]
fn running_numbers_sort_like_numbers() {
    let numbers = [0, 1, 9, 10, 69, 99, 100, 999, 1000, 9998, 9999];
    for pair in numbers.windows(2) {
        assert!(format_running_number(pair[0]) < format_running_number(pair[1]));
    }
}

#[test]
fn next_label_continues_from_the_last() {
    let first = count_next_label(0, 3, 5).unwrap();
    let second = count_next_label(first.running_no, first.global_running, 5).unwrap();
    assert_eq!((second.running_no, second.global_running, second.remaining), (2, 5, 0));
    assert!(second.completes_plan);
    assert_eq!(
        count_next_label(second.running_no, second.global_running, 5),
        Err(PlanError::PlanQuantityReached)
    );
}
