use label_print::models::CompleteLabelData;
use label_print::zpl::generate_zpl;

fn ford_label() -> CompleteLabelData {
    CompleteLabelData {
        prod_id: "P992383".to_string(),
        item_id: "7113800055".to_string(),
        brand_name: "Ford".to_string(),
        side: "LH".to_string(),
        plan_qty: 100,
        batch_no: "260202G71".to_string(),
        running_no: "0001".to_string(),
        machine_id: "G7".to_string(),
        shift: 1,
        qr_code: "ARKR-7113800055-260202G71-0001-LH-P992383".to_string(),
    }
}

#[test]
fn test_zpl_generation() {
    let label = ford_label();

    let zpl = generate_zpl(&label);

    assert!(zpl.contains("^XA"));
    assert!(zpl.contains("^XZ"));
    assert!(zpl.contains("Ford"));
    assert!(zpl.contains("LH"));
    assert!(zpl.contains("0001"));
    assert!(zpl.contains("P992383"));
    assert!(zpl.contains("7113800055"));
    assert!(zpl.contains("260202G71"));
    assert!(zpl.contains("ARKR-7113800055-260202G71-0001-LH-P992383"));
}

#[test]
fn test_zpl_qr_code_format() {
    let label = CompleteLabelData {
        prod_id: "TEST123".to_string(),
        item_id: "9999999999".to_string(),
        brand_name: "AEROKLAS".to_string(),
        side: "RH".to_string(),
        plan_qty: 50,
        batch_no: "260414E53".to_string(),
        running_no: "0025".to_string(),
        machine_id: "E5".to_string(),
        shift: 3,
        qr_code: "ARKR-9999999999-260414E53-0025-RH-TEST123".to_string(),
    };

    let zpl = generate_zpl(&label);

    assert!(zpl.contains("AEROKLAS"));
    assert!(zpl.contains("RH"));
    assert!(zpl.contains("0025"));
    assert!(zpl.contains("ARKR-9999999999-260414E53-0025-RH-TEST123"));
}

#[test]
fn print_sample_zpl() {
    let label = ford_label();

    let zpl = generate_zpl(&label);
    println!("\n{}\n", "=".repeat(60));
    println!("ZPL Code Sample:");
    println!("{}", "=".repeat(60));
    println!("{}", zpl);
    println!("{}\n", "=".repeat(60));
}

#[test]
fn zpl_exact_program() {
    let zpl = generate_zpl(&ford_label());
    let expected = "^XA\n^CI28\n^PW400\n^LL400\n\n~TA000\n~JSN\n^LT0\n^MNW\n^MTT\n^PON\n^PMN\n^LH0,0\n^JMA\n^PR4,4\n~SD15\n^JUS\n^LRN\n^XZ\n\n^XA\n^MMT\n^PW400\n^LL400\n^LS0\n\n\
^FO20,20^A0N,30,30^FH\\^FDFord^FS\n^FO350,20^A0N,36,36^FH\\^FDLH^FS\n\n^FO350,60^A0N,28,28^FH\\^FD0001^FS\n\n\
^FO20,100^A0N,24,24^FH\\^FDPROD ID: P992383^FS\n^FO20,130^A0N,24,24^FH\\^FDITEM: 7113800055^FS\n^FO20,160^A0N,24,24^FH\\^FDBATCH: 260202G71^FS\n\n\
^FO100,210^BQN,2,6\n^FDQA,ARKR-7113800055-260202G71-0001-LH-P992383^FS\n\n^PQ1,0,1,Y\n^XZ";
    assert_eq!(zpl, expected);
}

#[test]
fn zpl_qr_comes_from_fields_not_from_qr_code_field() {
    let mut label = ford_label();
    label.qr_code = "SOMETHING-ELSE".to_string();
    let zpl = generate_zpl(&label);
    assert!(!zpl.contains("SOMETHING-ELSE"));
    assert!(zpl.contains("^FDQA,ARKR-7113800055-260202G71-0001-LH-P992383^FS"));
    assert!(zpl.starts_with("^XA"));
    assert!(zpl.ends_with("^XZ"));
}
