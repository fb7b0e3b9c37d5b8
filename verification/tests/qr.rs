use base64::Engine;
use label_print::qr::{
    generate_qr_ascii, generate_qr_base64_svg, generate_qr_binary, generate_qr_data,
    generate_qr_svg, modules_to_binary, qr_failure_message, QrErrorKind,
};

#[test]
fn test_qr_data_format() {
    let qr = generate_qr_data("7113800055", "260202G71", "0001", "LH", "P992383");
    assert_eq!(qr, "ARKR-7113800055-260202G71-0001-LH-P992383");
}

#[test]
fn test_qr_svg_generation() {
    let data = "ARKR-7113800055-260202G71-0001-LH-P992383";
    let result = generate_qr_svg(data);
    assert!(result.is_ok());

    let svg = result.unwrap();
    assert!(svg.contains("<svg"));
    assert!(svg.contains("</svg>"));
}

#[test]
fn test_qr_base64_svg() {
    let data = "ARKR-TEST-001";
    let result = generate_qr_base64_svg(data);
    assert!(result.is_ok());

    let base64 = result.unwrap();
    assert!(base64.len() > 0);
}

#[test]
fn test_qr_ascii() {
    let data = "ARKR-TEST";
    let result = generate_qr_ascii(data);
    assert!(result.is_ok());
    assert!(result.unwrap().contains("█"));
}

#[test]
fn test_qr_binary() {
    let data = "ARKR-TEST";
    let result = generate_qr_binary(data);
    assert!(result.is_ok());

    let (width, height, binary) = result.unwrap();
    assert_eq!(width, height);
    assert_eq!(binary.len(), width * height);
    assert!(binary.iter().all(|&b| b == 0 || b == 1));
}

#[test]
fn qr_data_with_empty_fields() {
    assert_eq!(generate_qr_data("", "", "", "", ""), "ARKR-----");
}

#[test]
fn qr_data_reads_back_by_splitting() {
    let qr = generate_qr_data("9999999999", "260414E53", "0025", "RH", "TEST123");
    let parts: Vec<&str> = qr.split('-').collect();
    assert_eq!(parts, vec!["ARKR", "9999999999", "260414E53", "0025", "RH", "TEST123"]);
}

#[test]
fn svg_frame_and_colours() {
    let svg = generate_qr_svg("ARKR-TEST").unwrap();
    assert!(svg.starts_with(
        "<?xml version=\"1.0\" standalone=\"yes\"?><svg xmlns=\"http://www.w3.org/2000/svg\" version=\"1.1\" width=\""
    ));
    assert!(svg.ends_with("\"/></svg>"));
    assert!(svg.contains("fill=\"#000000\""));
    assert!(svg.contains("fill=\"#ffffff\""));
}

#[test]
fn base64_svg_decodes_to_the_svg() {
    let data = "ARKR-7113800055-260202G71-0001-LH-P992383";
    let svg = generate_qr_svg(data).unwrap();
    let encoded = generate_qr_base64_svg(data).unwrap();
    assert_ne!(encoded, svg);
    assert_eq!(encoded.len(), (svg.len() + 2) / 3 * 4);
    let decoded = base64::engine::general_purpose::STANDARD.decode(encoded.as_bytes()).unwrap();
    assert_eq!(decoded, svg.into_bytes());
}

#[test]
fn ascii_has_no_quiet_zone_and_double_width() {
    let (width, _, binary) = generate_qr_binary("ARKR-TEST").unwrap();
    let art = generate_qr_ascii("ARKR-TEST").unwrap();
    let lines: Vec<&str> = art.split('\n').collect();
    assert_eq!(lines.len(), width);
    for (y, line) in lines.iter().enumerate() {
        let chars: Vec<char> = line.chars().collect();
        assert_eq!(chars.len(), 2 * width);
        for x in 0..width {
            let expected = if binary[y * width + x] == 1 { '█' } else { ' ' };
            assert_eq!(chars[2 * x], expected);
            assert_eq!(chars[2 * x + 1], expected);
        }
    }
}

#[test]
fn binary_is_a_normal_version_symbol() {
    let (width, height, binary) = generate_qr_binary("ARKR-7113800055-260202G71-0001-LH-P992383").unwrap();
    assert_eq!(width, height);
    assert!(width >= 21 && width <= 177 && (width - 17) % 4 == 0);
    assert_eq!(binary.len(), width * width);
    assert_eq!(binary[0], 1);
}

#[test]
fn too_long_data_is_refused() {
    let data = "A".repeat(8000);
    let expected = "QR generation failed: data too long".to_string();
    assert_eq!(generate_qr_svg(&data), Err(expected.clone()));
    assert_eq!(generate_qr_base64_svg(&data), Err(expected.clone()));
    assert_eq!(generate_qr_ascii(&data), Err(expected.clone()));
    assert_eq!(generate_qr_binary(&data), Err(expected));
}

#[test]
fn failure_messages() {
    assert_eq!(qr_failure_message(QrErrorKind::DataTooLong), "QR generation failed: data too long");
    assert_eq!(qr_failure_message(QrErrorKind::InvalidVersion), "QR generation failed: invalid version");
    assert_eq!(
        qr_failure_message(QrErrorKind::UnsupportedCharacterSet),
        "QR generation failed: unsupported character set"
    );
    assert_eq!(
        qr_failure_message(QrErrorKind::InvalidEciDesignator),
        "QR generation failed: invalid ECI designator"
    );
    assert_eq!(qr_failure_message(QrErrorKind::InvalidCharacter), "QR generation failed: invalid character");
}

#[test]
fn modules_become_bits() {
    let (w, h, bits) = modules_to_binary(2, &[true, false, false, true]);
    assert_eq!((w, h), (2, 2));
    assert_eq!(bits, vec![1, 0, 0, 1]);
}

#[test]
fn svg_has_one_path_step_per_dark_module() {
    let data = "ARKR-7113800055-260202G71-0001-LH-P992383";
    let (width, _, binary) = generate_qr_binary(data).unwrap();
    let svg = generate_qr_svg(data).unwrap();
    let dark = binary.iter().filter(|&&b| b == 1).count();
    assert_eq!(svg.matches('M').count(), dark);
    let n = (width + 8) as u32;
    let unit = (200 + n - 1) / n;
    let size = format!("width=\"{}\" height=\"{}\"", n * unit, n * unit);
    assert!(svg.contains(&size));
    let first = binary.iter().position(|&b| b == 1).unwrap();
    let step = format!(
        "M{} {}h{}v{}H{}V{}",
        (first % width + 4) as u32 * unit,
        (first / width + 4) as u32 * unit,
        unit,
        unit,
        (first % width + 4) as u32 * unit,
        (first / width + 4) as u32 * unit
    );
    assert!(svg.contains(&format!("d=\"{}", step)));
}
